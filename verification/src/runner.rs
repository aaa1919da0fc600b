//! The worker boundary: a request/response channel around one engine
//! session.
//!
//! Each request is processed to completion and answered with zero or more
//! `Stdout` responses — each carrying the full transcript accumulated so
//! far — and, for a rejected or trapped submission, exactly one terminal
//! `Error`. Every response carries the opaque id of the request it answers,
//! and never another request's id.

use vstd::prelude::*;

use crate::fmt::{info_line, runtime_error_text};
use crate::codegen::gen_prog;
use crate::resolve::{extends, RStmt};
use crate::session::{
    builtin_names, builtin_tys, builtin_globals, exec_post, pad_globals, spec_compile, CompileOut,
    ExecuteStatus, Session,
};
use crate::sink::{lemma_sink_after_push, note1, sink_after, OutputSink, SinkView};
use crate::source::concat_texts;
use crate::types::Ty;
use crate::vm::{RunRes, SVal, VmSt};

verus! {

/// A request to the worker.
#[derive(Debug)]
pub enum Request {
    /// Compile and execute the given source text.
    ExecuteCode(String),
}

/// The source text a request carries.
pub open spec fn req_source(m: Request) -> Seq<char> {
    match m {
        Request::ExecuteCode(s) => s@,
    }
}

/// One response to a request.
#[derive(Debug)]
pub enum RunResult {
    /// The full transcript accumulated so far; zero or more per request.
    Stdout(String),
    /// The terminal error text; at most one per request.
    Error(String),
}

/// The abstract form of a response.
pub enum RMsg {
    MStdout(Seq<char>),
    MError(Seq<char>),
}

/// The abstraction of a response.
pub open spec fn rmsg(r: RunResult) -> RMsg {
    match r {
        RunResult::Stdout(s) => RMsg::MStdout(s@),
        RunResult::Error(s) => RMsg::MError(s@),
    }
}

/// The abstraction of a response list.
pub open spec fn rmsgs(rs: Seq<RunResult>) -> Seq<RMsg> {
    rs.map_values(|r: RunResult| rmsg(r))
}

/// The abstraction of a tagged response list.
pub open spec fn resp_msgs(rs: Seq<Response>) -> Seq<RMsg> {
    rs.map_values(|p: Response| rmsg(p.result))
}

/// A response tagged with the id of the request it answers.
#[derive(Debug)]
pub struct Response {
    pub id: u64,
    pub result: RunResult,
}

/// The cumulative transcripts a fresh live sink delivers for a fragment
/// sequence: the `i`-th delivery holds the first `i + 1` fragments.
pub open spec fn transcripts(frags: Seq<Seq<char>>) -> Seq<Seq<char>> {
    Seq::new(frags.len(), |i: int| concat_texts(frags.take(i + 1)))
}

/// The view of a fresh sink with a live subscription.
pub open spec fn fresh_sink() -> SinkView {
    SinkView { buffer: Seq::empty(), alive: true, deliveries: Seq::empty() }
}

/// A fresh live sink, fed a fragment sequence, buffers their concatenation
/// and delivers exactly the cumulative transcripts.
pub proof fn lemma_fresh_sink_deliveries(frags: Seq<Seq<char>>)
    ensures
        sink_after(fresh_sink(), frags).buffer == concat_texts(frags),
        sink_after(fresh_sink(), frags).alive,
        sink_after(fresh_sink(), frags).deliveries == transcripts(frags),
    decreases frags.len(),
{
    if frags.len() == 0 {
        assert(sink_after(fresh_sink(), frags) == fresh_sink());
        assert(concat_texts(frags) == Seq::<char>::empty());
        assert(transcripts(frags) =~= Seq::<Seq<char>>::empty());
    } else {
        let pre = frags.drop_last();
        let last = frags.last();
        lemma_fresh_sink_deliveries(pre);
        lemma_sink_after_push(fresh_sink(), pre, last);
        assert(pre.push(last) =~= frags);
        let s1 = sink_after(fresh_sink(), pre);
        assert(sink_after(fresh_sink(), frags) == note1(s1, last));
        assert(note1(s1, last).buffer == concat_texts(pre) + last);
        assert(concat_texts(frags) == concat_texts(frags.drop_last()) + frags.last());
        assert forall|i: int| 0 <= i < frags.len() implies transcripts(pre).push(
            concat_texts(frags),
        )[i] == transcripts(frags)[i] by {
            if i < frags.len() - 1 {
                assert(pre.take(i + 1) =~= frags.take(i + 1));
            } else {
                assert(frags.take(i + 1) =~= frags);
            }
        }
        assert(note1(s1, last).deliveries =~= transcripts(frags));
    }
}

/// The responses an accepted program produces, abstractly: given the clock
/// reading `now` and measured duration `dur`, the machine semantics fix one
/// `Stdout` per delivery (each a cumulative transcript) and, after a trap,
/// one terminal `Error` holding the runtime error text.
pub open spec fn responses_post(
    prog: Seq<RStmt>,
    ginit: Seq<Option<SVal>>,
    gfin: Seq<Option<SVal>>,
    msgs: Seq<RMsg>,
    now: i64,
    dur: u64,
) -> bool {
    let init = VmSt { stack: Seq::empty(), globals: ginit, out: Seq::empty(), now_secs: now };
    match crate::vm::run(gen_prog(prog, 0), 0, init) {
        RunRes::Done(st) => {
            let frags = st.out.push(info_line(dur as nat));
            &&& gfin == st.globals
            &&& msgs == stdout_msgs(transcripts(frags))
        },
        RunRes::Trapped { st, msg, line } => {
            let text = runtime_error_text(msg, line as nat);
            let frags = st.out.push(text);
            &&& gfin == st.globals
            &&& msgs == stdout_msgs(transcripts(frags)).push(RMsg::MError(text))
        },
    }
}

/// One `Stdout` per cumulative transcript.
pub open spec fn stdout_msgs(ts: Seq<Seq<char>>) -> Seq<RMsg> {
    Seq::new(ts.len(), |i: int| RMsg::MStdout(ts[i]))
}

/// Runs one submission on a session and collects the responses in order:
/// the `Stdout` deliveries, then the terminal `Error` if the submission was
/// rejected or trapped.
pub fn run_on_session(session: &mut Session, source: &str) -> (out: Vec<RunResult>)
    requires
        old(session).wf(),
    ensures
        final(session).wf(),
        extends(old(session).names_v(), final(session).names_v()),
        spec_compile(source@, old(session).names_v(), old(session).types_v()) matches
            CompileOut::Reject { text } ==> {
            &&& out@.len() == 1
            &&& out@[0] matches RunResult::Error(e) && e@ == text
            &&& final(session).names_v() == old(session).names_v()
            &&& final(session).types_v() == old(session).types_v()
            &&& final(session).globals_v() == old(session).globals_v()
        },
        spec_compile(source@, old(session).names_v(), old(session).types_v()) matches
            CompileOut::Accept { prog, names, types } ==> {
            &&& final(session).names_v() == names
            &&& final(session).types_v() == types
            &&& exists|now: i64, dur: u64|
                #[trigger] responses_post(
                    prog,
                    pad_globals(old(session).globals_v(), names.len() as int),
                    final(session).globals_v(),
                    rmsgs(out@),
                    now,
                    dur,
                )
        },
{
    let mut sink = OutputSink::new();
    proof {
        assert(sink@ == fresh_sink());
    }
    let status = session.execute(source, &mut sink);
    let mut out: Vec<RunResult> = Vec::new();
    let ghost c = spec_compile(source@, old(session).names_v(), old(session).types_v());
    match status {
        ExecuteStatus::CompileFailed { errors } => {
            proof {
                assert(c is Reject);
            }
            out.push(RunResult::Error(errors));
            proof {
                assert(out@.len() == 1);
            }
            out
        },
        ExecuteStatus::Completed => {
            proof {
                assert(c is Accept);
            }
            let ghost (now, dur) = choose|now: i64, dur: u64|
                exec_post(
                    c->Accept_prog,
                    pad_globals(old(session).globals_v(), c->Accept_names.len() as int),
                    fresh_sink(),
                    session.globals_v(),
                    sink@,
                    ExecuteStatus::Completed,
                    now,
                    dur,
                );
            let ghost init = VmSt {
                stack: Seq::<SVal>::empty(),
                globals: pad_globals(old(session).globals_v(), c->Accept_names.len() as int),
                out: Seq::<Seq<char>>::empty(),
                now_secs: now,
            };
            let ghost st = crate::vm::run(gen_prog(c->Accept_prog, 0), 0, init)->Done_0;
            let ghost frags = st.out.push(info_line(dur as nat));
            proof {
                lemma_fresh_sink_deliveries(frags);
            }
            collect_stdouts(&sink, &mut out);
            proof {
                assert(rmsgs(out@) =~= stdout_msgs(
                    transcripts(frags),
                ));
                assert(responses_post(
                    c->Accept_prog,
                    pad_globals(old(session).globals_v(), c->Accept_names.len() as int),
                    session.globals_v(),
                    rmsgs(out@),
                    now,
                    dur,
                ));
            }
            out
        },
        ExecuteStatus::RuntimeFailed { errors } => {
            proof {
                assert(c is Accept);
            }
            let ghost (now, dur) = choose|now: i64, dur: u64|
                exec_post(
                    c->Accept_prog,
                    pad_globals(old(session).globals_v(), c->Accept_names.len() as int),
                    fresh_sink(),
                    session.globals_v(),
                    sink@,
                    ExecuteStatus::RuntimeFailed { errors },
                    now,
                    dur,
                );
            let ghost init = VmSt {
                stack: Seq::<SVal>::empty(),
                globals: pad_globals(old(session).globals_v(), c->Accept_names.len() as int),
                out: Seq::<Seq<char>>::empty(),
                now_secs: now,
            };
            let ghost tr = crate::vm::run(gen_prog(c->Accept_prog, 0), 0, init);
            let ghost text = runtime_error_text(tr->Trapped_msg, tr->Trapped_line as nat);
            let ghost frags = tr->Trapped_st.out.push(text);
            proof {
                lemma_fresh_sink_deliveries(frags);
            }
            collect_stdouts(&sink, &mut out);
            let ghost pre_err = out@;
            out.push(RunResult::Error(errors));
            proof {
                assert(rmsgs(out@) =~= rmsgs(pre_err).push(RMsg::MError(errors@)));
                assert(rmsgs(pre_err) =~= stdout_msgs(
                    transcripts(frags),
                ));
                assert(responses_post(
                    c->Accept_prog,
                    pad_globals(old(session).globals_v(), c->Accept_names.len() as int),
                    session.globals_v(),
                    rmsgs(out@),
                    now,
                    dur,
                ));
            }
            out
        },
    }
}

/// Turns each delivery of a sink into one `Stdout` response, in order.
fn collect_stdouts(sink: &OutputSink, out: &mut Vec<RunResult>)
    requires
        old(out)@.len() == 0,
    ensures
        final(out)@.len() == sink@.deliveries.len(),
        forall|j: int|
            0 <= j < final(out)@.len() ==> (#[trigger] final(out)@[j] matches RunResult::Stdout(s)
                && s@ == sink@.deliveries[j]),
        rmsgs(final(out)@) =~= Seq::new(
            sink@.deliveries.len(),
            |i: int| RMsg::MStdout(sink@.deliveries[i]),
        ),
{
    let n = sink.delivery_count();
    let mut k: usize = 0;
    while k < n
        invariant
            k <= n,
            n == sink@.deliveries.len(),
            out@.len() == k,
            forall|j: int|
                0 <= j < k ==> (#[trigger] out@[j] matches RunResult::Stdout(s) && s@
                    == sink@.deliveries[j]),
        decreases n - k,
    {
        let d = sink.delivery_at(k).clone();
        out.push(RunResult::Stdout(d));
        k = k + 1;
    }
}

/// The dispatcher: owns one persistent session; each request is answered
/// with responses tagged with that request's id only.
pub struct Runner {
    session: Session,
}

impl Runner {
    /// The session's symbol table.
    pub closed spec fn names_v(&self) -> Seq<Seq<char>> {
        self.session.names_v()
    }

    /// The session's type environment.
    pub closed spec fn types_v(&self) -> Seq<Ty> {
        self.session.types_v()
    }

    /// The session's global store.
    pub closed spec fn globals_v(&self) -> Seq<Option<SVal>> {
        self.session.globals_v()
    }

    pub closed spec fn wf(&self) -> bool {
        self.session.wf()
    }

    /// Creates a dispatcher over a freshly bootstrapped session.
    pub fn create() -> (r: Runner)
        ensures
            r.wf(),
            r.names_v() == builtin_names(),
            r.types_v() == builtin_tys(),
            r.globals_v() == builtin_globals(),
    {
        Runner { session: Session::new() }
    }

    /// Handles one request: compiles and executes its source against the
    /// owned session and returns the responses, every one of them tagged
    /// with this request's id — responses are never delivered to another
    /// request's listener.
    pub fn handle_input(&mut self, msg: Request, id: u64) -> (out: Vec<Response>)
        requires
            old(self).wf(),
        ensures
            final(self).wf(),
            extends(old(self).names_v(), final(self).names_v()),
            forall|k: int| 0 <= k < out@.len() ==> (#[trigger] out@[k].id) == id,
            spec_compile(req_source(msg), old(self).names_v(), old(self).types_v()) matches
                CompileOut::Reject { text } ==> {
                &&& out@.len() == 1
                &&& out@[0].result matches RunResult::Error(e) && e@ == text
                &&& final(self).names_v() == old(self).names_v()
                &&& final(self).types_v() == old(self).types_v()
                &&& final(self).globals_v() == old(self).globals_v()
            },
            spec_compile(req_source(msg), old(self).names_v(), old(self).types_v()) matches
                CompileOut::Accept { prog, names, types } ==> {
                &&& final(self).names_v() == names
                &&& final(self).types_v() == types
                &&& exists|now: i64, dur: u64|
                    #[trigger] responses_post(
                        prog,
                        pad_globals(old(self).globals_v(), names.len() as int),
                        final(self).globals_v(),
                        resp_msgs(out@),
                        now,
                        dur,
                    )
            },
    {
        let ghost srcv = req_source(msg);
        let source = match msg {
            Request::ExecuteCode(s) => s,
        };
        proof {
            assert(source@ == srcv);
        }
        let results = run_on_session(&mut self.session, source.as_str());
        let mut out: Vec<Response> = Vec::new();
        let mut k: usize = 0;
        while k < results.len()
            invariant
                k <= results.len(),
                out@.len() == k,
                forall|j: int| 0 <= j < k ==> (#[trigger] out@[j].id) == id,
                forall|j: int| 0 <= j < k ==> rmsg(#[trigger] out@[j].result) == rmsg(results@[j]),
            decreases results.len() - k,
        {
            let r = clone_result(&results[k]);
            out.push(Response { id, result: r });
            k = k + 1;
        }
        proof {
            assert(resp_msgs(out@) =~= rmsgs(results@));
            let c = spec_compile(srcv, old(self).names_v(), old(self).types_v());
            if c is Accept {
                let (now, dur) = choose|now: i64, dur: u64|
                    responses_post(
                        c->Accept_prog,
                        pad_globals(old(self).globals_v(), c->Accept_names.len() as int),
                        self.globals_v(),
                        rmsgs(results@),
                        now,
                        dur,
                    );
                assert(responses_post(
                    c->Accept_prog,
                    pad_globals(old(self).globals_v(), c->Accept_names.len() as int),
                    self.globals_v(),
                    resp_msgs(out@),
                    now,
                    dur,
                ));
            }
        }
        out
    }
}

/// Copies a response, preserving its abstraction.
fn clone_result(r: &RunResult) -> (c: RunResult)
    ensures
        rmsg(c) == rmsg(*r),
{
    match r {
        RunResult::Stdout(s) => RunResult::Stdout(s.clone()),
        RunResult::Error(s) => RunResult::Error(s.clone()),
    }
}

/// Compiles and executes one submission on a session of its own — a fresh
/// engine, bootstrapped for just this run — and returns the responses: the
/// `Stdout` deliveries in order, then the terminal `Error` if the
/// submission was rejected or trapped.
pub fn run(source: &str) -> (out: Vec<RunResult>)
    ensures
        spec_compile(source@, builtin_names(), builtin_tys()) matches CompileOut::Reject {
            text,
        } ==> {
            &&& out@.len() == 1
            &&& out@[0] matches RunResult::Error(e) && e@ == text
        },
        spec_compile(source@, builtin_names(), builtin_tys()) matches CompileOut::Accept {
            prog,
            names,
            types,
        } ==> exists|now: i64, dur: u64, gfin: Seq<Option<SVal>>|
            #[trigger] responses_post(
                prog,
                pad_globals(builtin_globals(), names.len() as int),
                gfin,
                rmsgs(out@),
                now,
                dur,
            ),
{
    let mut session = Session::new();
    let out = run_on_session(&mut session, source);
    proof {
        let c = spec_compile(source@, builtin_names(), builtin_tys());
        if c is Accept {
            let (now, dur) = choose|now: i64, dur: u64|
                responses_post(
                    c->Accept_prog,
                    pad_globals(builtin_globals(), c->Accept_names.len() as int),
                    session.globals_v(),
                    rmsgs(out@),
                    now,
                    dur,
                );
            assert(responses_post(
                c->Accept_prog,
                pad_globals(builtin_globals(), c->Accept_names.len() as int),
                session.globals_v(),
                rmsgs(out@),
                now,
                dur,
            ));
        }
    }
    out
}

} // verus!
