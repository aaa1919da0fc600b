//! The engine session: one persistent virtual machine bootstrapped once with
//! the native builtins, compiling and executing every later submission
//! against the same symbol table, type environment and global store.
//!
//! `spec_compile` states exactly when a submission compiles and what it
//! compiles to; `Session::execute` is proved to reject exactly the
//! submissions it rejects (with the formatted diagnostics, no output
//! delivered, the session untouched) and to run the rest per the machine
//! semantics, appending the timing line on success or the runtime error
//! lines on a trap. A runtime error leaves the session usable.
//!
//! Two policies this implementation fixes: the timing line is appended only
//! on successful completion, not after a runtime error; and a failed
//! compilation leaves the symbol table unchanged (slots are committed only
//! when a submission compiles).

use vstd::prelude::*;

use crate::codegen::{codegen_program, gen_prog, Chunk, NativeId, Op};
use crate::fmt::{dec_rep, info_line, info_line_string, runtime_error_string, runtime_error_text, u64_to_string};
use crate::lexer::{chars_vec, spec_lex, tokenize, LexOut};
use crate::parser::{parse_program, sp_program, POut};
use crate::resolve::{
    copy_names, extends, names_view, r_prog, resolve_program, RStmt,
};
use crate::sink::{lemma_sink_after_push, sink_after, OutputSink, SinkView};
use crate::source::{concat_texts, Source};
use crate::time::{millis_since_epoch, system_now};
use crate::types::{check_program, copy_types, ty_prog, ParamK, RetK, Ty, TyErrAt, TyErrKind};
use crate::vm::{
    gvals, init_st, interpret, lemma_run_globals_len, lemma_run_shift, run, step,
    InterpretResult, RunRes, SVal, StepRes, Value, VmSt,
};

verus! {

// ------------------------------------------------------------------
// Diagnostics
// ------------------------------------------------------------------
/// The diagnostic for a lexing or parsing failure.
pub open spec fn diag_syntax(line: u64) -> Seq<char> {
    "syntax error at line "@ + dec_rep(line as nat) + "\n"@
}

/// The diagnostic for one type error.
pub open spec fn ty_diag(e: TyErrAt) -> Seq<char> {
    (match e.kind {
        TyErrKind::ExpectNum => "type error: expected a number at line "@,
        TyErrKind::NotCallable => "type error: value is not callable at line "@,
        TyErrKind::ArityMismatch => "type error: wrong number of arguments at line "@,
    }) + dec_rep(e.line as nat) + "\n"@
}

/// The formatted block of all type errors of one submission.
pub open spec fn ty_diags_text(errs: Seq<TyErrAt>) -> Seq<char> {
    concat_texts(errs.map_values(|e: TyErrAt| ty_diag(e)))
}

/// Builds the syntax diagnostic.
pub fn syntax_diag_string(line: u64) -> (s: String)
    ensures
        s@ == diag_syntax(line),
{
    let mut s = "syntax error at line ".to_owned();
    let l = u64_to_string(line);
    s.append(l.as_str());
    s.append("\n");
    proof {
        assert(s@ =~= diag_syntax(line));
    }
    s
}

/// Builds the diagnostic of one type error.
pub fn ty_diag_string(e: &TyErrAt) -> (s: String)
    ensures
        s@ == ty_diag(*e),
{
    let mut s = match e.kind {
        TyErrKind::ExpectNum => "type error: expected a number at line ".to_owned(),
        TyErrKind::NotCallable => "type error: value is not callable at line ".to_owned(),
        TyErrKind::ArityMismatch => "type error: wrong number of arguments at line ".to_owned(),
    };
    let l = u64_to_string(e.line);
    s.append(l.as_str());
    s.append("\n");
    proof {
        assert(s@ =~= ty_diag(*e));
    }
    s
}

// ------------------------------------------------------------------
// The builtin registry
// ------------------------------------------------------------------
/// Declares the native functions, in registration order: a slot's index in
/// the registry is the global slot the bootstrap assigns it.
pub struct BuiltinRegistry {
    names: Vec<Vec<char>>,
    ids: Vec<NativeId>,
    tys: Vec<Ty>,
}

impl BuiltinRegistry {
    pub closed spec fn names_v(&self) -> Seq<Seq<char>> {
        names_view(self.names@)
    }

    pub closed spec fn ids_v(&self) -> Seq<NativeId> {
        self.ids@
    }

    pub closed spec fn tys_v(&self) -> Seq<Ty> {
        self.tys@
    }

    pub closed spec fn wf(&self) -> bool {
        self.names@.len() == self.ids@.len() && self.names@.len() == self.tys@.len()
    }

    /// An empty registry.
    pub fn new() -> (r: BuiltinRegistry)
        ensures
            r.wf(),
            r.names_v() == Seq::<Seq<char>>::empty(),
            r.ids_v() == Seq::<NativeId>::empty(),
            r.tys_v() == Seq::<Ty>::empty(),
    {
        let r = BuiltinRegistry { names: Vec::new(), ids: Vec::new(), tys: Vec::new() };
        proof {
            assert(r.names_v() =~= Seq::<Seq<char>>::empty());
        }
        r
    }

    /// Registers one native function under a fresh name, with its arity and
    /// declared signature. Duplicate names are rejected by contract.
    pub fn register(&mut self, name: Vec<char>, id: NativeId, arity: u64, ty: Ty)
        requires
            old(self).wf(),
            forall|k: int|
                0 <= k < old(self).names_v().len() ==> old(self).names_v()[k] != name@,
            ty matches Ty::FnTy { param, .. } && arity == (if param is Some {
                1int
            } else {
                0int
            }),
        ensures
            final(self).wf(),
            final(self).names_v() == old(self).names_v().push(name@),
            final(self).ids_v() == old(self).ids_v().push(id),
            final(self).tys_v() == old(self).tys_v().push(ty),
    {
        let ghost namev = name@;
        self.names.push(name);
        self.ids.push(id);
        self.tys.push(ty);
        proof {
            assert(self.names_v() =~= old(self).names_v().push(namev));
        }
    }

    pub fn len(&self) -> (n: usize)
        ensures
            n == self.names_v().len(),
    {
        self.names.len()
    }

    /// The name registered at a slot.
    pub fn name_at(&self, i: usize) -> (nm: Vec<char>)
        requires
            i < self.names_v().len(),
        ensures
            nm@ == self.names_v()[i as int],
    {
        crate::resolve::copy_chars(&self.names[i])
    }

    /// The native registered at a slot.
    pub fn native_at(&self, i: usize) -> (id: NativeId)
        requires
            self.wf(),
            i < self.names_v().len(),
        ensures
            id == self.ids_v()[i as int],
    {
        self.ids[i]
    }

    /// The signature registered at a slot.
    pub fn ty_at(&self, i: usize) -> (t: Ty)
        requires
            self.wf(),
            i < self.names_v().len(),
        ensures
            t == self.tys_v()[i as int],
    {
        self.tys[i]
    }
}

/// The builtin names, in slot order.
pub open spec fn builtin_names() -> Seq<Seq<char>> {
    seq!["println"@, "is_nan"@, "parse_number"@, "clock"@, "str"@]
}

/// The builtin identities, in slot order.
pub open spec fn builtin_ids() -> Seq<NativeId> {
    seq![
        NativeId::Println,
        NativeId::IsNan,
        NativeId::ParseNumber,
        NativeId::Clock,
        NativeId::Str,
    ]
}

/// The builtin signatures, in slot order.
pub open spec fn builtin_tys() -> Seq<Ty> {
    seq![
        Ty::FnTy { param: Some(ParamK::AnyP), ret: RetK::RBool },
        Ty::FnTy { param: Some(ParamK::NumP), ret: RetK::RBool },
        Ty::FnTy { param: Some(ParamK::AnyP), ret: RetK::RNum },
        Ty::FnTy { param: None, ret: RetK::RNum },
        Ty::FnTy { param: Some(ParamK::AnyP), ret: RetK::RStr },
    ]
}

/// The global store right after the bootstrap chunk has run.
pub open spec fn builtin_globals() -> Seq<Option<SVal>> {
    seq![
        Some(SVal::SNative(NativeId::Println)),
        Some(SVal::SNative(NativeId::IsNan)),
        Some(SVal::SNative(NativeId::ParseNumber)),
        Some(SVal::SNative(NativeId::Clock)),
        Some(SVal::SNative(NativeId::Str)),
    ]
}

/// The registry the engine is bootstrapped with.
pub fn standard_registry() -> (r: BuiltinRegistry)
    ensures
        r.wf(),
        r.names_v() == builtin_names(),
        r.ids_v() == builtin_ids(),
        r.tys_v() == builtin_tys(),
{
    proof {
        reveal_strlit("println");
        reveal_strlit("is_nan");
        reveal_strlit("parse_number");
        reveal_strlit("clock");
        reveal_strlit("str");
    }
    let mut r = BuiltinRegistry::new();
    r.register(
        chars_vec("println"),
        NativeId::Println,
        1,
        Ty::FnTy { param: Some(ParamK::AnyP), ret: RetK::RBool },
    );
    proof {
        reveal_strlit("println");
        reveal_strlit("is_nan");
        assert("println"@.len() == 7);
        assert("is_nan"@.len() == 6);
        assert(r.names_v() =~= seq!["println"@]);
        assert(r.names_v()[0] != "is_nan"@);
    }
    r.register(
        chars_vec("is_nan"),
        NativeId::IsNan,
        1,
        Ty::FnTy { param: Some(ParamK::NumP), ret: RetK::RBool },
    );
    proof {
        reveal_strlit("println");
        reveal_strlit("is_nan");
        reveal_strlit("parse_number");
        assert("println"@.len() == 7);
        assert("is_nan"@.len() == 6);
        assert("parse_number"@.len() == 12);
        assert(r.names_v() =~= seq!["println"@, "is_nan"@]);
        assert(r.names_v()[0] != "parse_number"@ && r.names_v()[1] != "parse_number"@);
    }
    r.register(
        chars_vec("parse_number"),
        NativeId::ParseNumber,
        1,
        Ty::FnTy { param: Some(ParamK::AnyP), ret: RetK::RNum },
    );
    proof {
        reveal_strlit("println");
        reveal_strlit("is_nan");
        reveal_strlit("parse_number");
        reveal_strlit("clock");
        assert("println"@.len() == 7);
        assert("is_nan"@.len() == 6);
        assert("parse_number"@.len() == 12);
        assert("clock"@.len() == 5);
        assert(r.names_v() =~= seq!["println"@, "is_nan"@, "parse_number"@]);
        assert(r.names_v()[0] != "clock"@ && r.names_v()[1] != "clock"@ && r.names_v()[2]
            != "clock"@);
    }
    r.register(
        chars_vec("clock"),
        NativeId::Clock,
        0,
        Ty::FnTy { param: None, ret: RetK::RNum },
    );
    proof {
        reveal_strlit("println");
        reveal_strlit("is_nan");
        reveal_strlit("parse_number");
        reveal_strlit("clock");
        reveal_strlit("str");
        assert("println"@.len() == 7);
        assert("is_nan"@.len() == 6);
        assert("parse_number"@.len() == 12);
        assert("clock"@.len() == 5);
        assert("str"@.len() == 3);
        assert(r.names_v() =~= seq!["println"@, "is_nan"@, "parse_number"@, "clock"@]);
        assert(r.names_v()[0] != "str"@ && r.names_v()[1] != "str"@ && r.names_v()[2] != "str"@
            && r.names_v()[3] != "str"@);
    }
    r.register(
        chars_vec("str"),
        NativeId::Str,
        1,
        Ty::FnTy { param: Some(ParamK::AnyP), ret: RetK::RStr },
    );
    proof {
        assert(r.names_v() =~= builtin_names());
        assert(r.ids_v() =~= builtin_ids());
        assert(r.tys_v() =~= builtin_tys());
    }
    r
}

// ------------------------------------------------------------------
// The bootstrap chunk
// ------------------------------------------------------------------
/// The bootstrap instructions from registry position `k` on: push each
/// native and store it into its slot.
pub open spec fn boot_ops(ids: Seq<NativeId>, k: int) -> Seq<Op>
    decreases ids.len() - k,
{
    if !(0 <= k < ids.len()) {
        Seq::empty()
    } else {
        seq![Op::PushNative { id: ids[k] }, Op::Store { slot: k as usize }] + boot_ops(ids, k + 1)
    }
}

/// The globals after storing each native from position `k` on into its slot.
pub open spec fn fill_natives(g: Seq<Option<SVal>>, ids: Seq<NativeId>, k: int) -> Seq<
    Option<SVal>,
>
    decreases ids.len() - k,
{
    if !(0 <= k < ids.len()) {
        g
    } else {
        fill_natives(g.update(k, Some(SVal::SNative(ids[k]))), ids, k + 1)
    }
}

/// Filling changes exactly the slots from `k` up to the registry size.
pub proof fn lemma_fill_natives_at(g: Seq<Option<SVal>>, ids: Seq<NativeId>, k: int)
    requires
        0 <= k,
        ids.len() <= g.len(),
    ensures
        fill_natives(g, ids, k).len() == g.len(),
        forall|j: int|
            0 <= j < g.len() ==> fill_natives(g, ids, k)[j] == (if k <= j < ids.len() {
                Some(SVal::SNative(ids[j]))
            } else {
                g[j]
            }),
    decreases ids.len() - k,
{
    if 0 <= k < ids.len() {
        lemma_fill_natives_at(g.update(k, Some(SVal::SNative(ids[k]))), ids, k + 1);
    }
}

/// Running the bootstrap suffix from position `k` stores each native into
/// its slot and stops cleanly.
pub proof fn lemma_boot_run(ids: Seq<NativeId>, k: int, st: VmSt)
    requires
        0 <= k,
        ids.len() <= st.globals.len(),
        ids.len() <= usize::MAX,
    ensures
        run(boot_ops(ids, k), 0, st) == RunRes::Done(
            VmSt { globals: fill_natives(st.globals, ids, k), ..st },
        ),
    decreases ids.len() - k,
{
    if 0 <= k < ids.len() {
        let ops = boot_ops(ids, k);
        let pre = seq![Op::PushNative { id: ids[k] }, Op::Store { slot: k as usize }];
        let rest = boot_ops(ids, k + 1);
        assert(ops == pre + rest);
        assert(ops[0] == pre[0] && ops[1] == pre[1]);
        let st1 = VmSt { stack: st.stack.push(SVal::SNative(ids[k])), ..st };
        assert(step(ops[0], st) == StepRes::Next(st1));
        let st2 = VmSt {
            stack: st.stack,
            globals: st.globals.update(k, Some(SVal::SNative(ids[k]))),
            ..st
        };
        assert(st1.stack.drop_last() =~= st.stack);
        assert(st1.stack.last() == SVal::SNative(ids[k]));
        assert(step(ops[1], st1) == StepRes::Next(st2));
        assert(run(ops, 0, st) == run(ops, 1, st1));
        assert(run(ops, 1, st1) == run(ops, 2, st2));
        lemma_run_shift(pre, rest, 0, st2);
        lemma_boot_run(ids, k + 1, st2);
    } else {
        assert(run(boot_ops(ids, k), 0, st) == RunRes::Done(st));
        assert(VmSt { globals: fill_natives(st.globals, ids, k), ..st } == st);
    }
}

/// Emits the bootstrap chunk for a registry.
pub fn gen_bootstrap(reg: &BuiltinRegistry) -> (c: Chunk)
    requires
        reg.wf(),
    ensures
        c.ops@ == boot_ops(reg.ids_v(), 0),
{
    let mut out: Vec<Op> = Vec::new();
    let mut i: usize = 0;
    while i < reg.len()
        invariant
            i <= reg.ids_v().len(),
            reg.wf(),
            boot_ops(reg.ids_v(), 0) == out@ + boot_ops(reg.ids_v(), i as int),
        decreases reg.ids_v().len() - i,
    {
        let ghost out_pre = out@;
        let id = reg.native_at(i);
        out.push(Op::PushNative { id });
        out.push(Op::Store { slot: i });
        proof {
            let rest = boot_ops(reg.ids_v(), i + 1);
            assert(boot_ops(reg.ids_v(), i as int) == seq![
                Op::PushNative { id },
                Op::Store { slot: i },
            ] + rest);
            assert(out_pre + (seq![Op::PushNative { id }, Op::Store { slot: i }] + rest) =~= out@
                + rest);
        }
        i = i + 1;
    }
    proof {
        assert(boot_ops(reg.ids_v(), i as int) =~= Seq::<Op>::empty());
        assert(out@ + Seq::<Op>::empty() =~= out@);
    }
    Chunk { ops: out }
}

// ------------------------------------------------------------------
// Compilation
// ------------------------------------------------------------------
/// A type environment padded with `Unknown` up to the symbol table's size.
pub open spec fn pad_types(ts: Seq<Ty>, n: int) -> Seq<Ty> {
    if n <= ts.len() {
        ts
    } else {
        ts + Seq::new((n - ts.len()) as nat, |j: int| Ty::Unknown)
    }
}

/// A global store padded with empty slots up to the symbol table's size.
pub open spec fn pad_globals(g: Seq<Option<SVal>>, n: int) -> Seq<Option<SVal>> {
    if n <= g.len() {
        g
    } else {
        g + Seq::new((n - g.len()) as nat, |j: int| None)
    }
}

/// What compiling a submission against a session's symbol table and type
/// environment yields: a rejection carrying the formatted diagnostics, or
/// the resolved program with the extended table and environment.
pub enum CompileOut {
    Reject { text: Seq<char> },
    Accept { prog: Seq<RStmt>, names: Seq<Seq<char>>, types: Seq<Ty> },
}

/// The compile stage: lex, parse, resolve against the session table, pad the
/// type environment to the extended table, type-check. Any diagnostic
/// rejects the submission before code generation.
pub open spec fn spec_compile(src: Seq<char>, names0: Seq<Seq<char>>, types0: Seq<Ty>) -> CompileOut {
    match spec_lex(src, 0, 1) {
        LexOut::Fail { line } => CompileOut::Reject { text: diag_syntax(line) },
        LexOut::Toks(ts) => match sp_program(ts, 0) {
            POut::Fail { line } => CompileOut::Reject { text: diag_syntax(line) },
            POut::Prog(ss) => {
                let (rprog, names1) = r_prog(src, names0, ss, 0);
                let padded = pad_types(types0, names1.len() as int);
                let (errs, types1) = ty_prog(padded, rprog, 0);
                if errs.len() > 0 {
                    CompileOut::Reject { text: ty_diags_text(errs) }
                } else {
                    CompileOut::Accept { prog: rprog, names: names1, types: types1 }
                }
            },
        },
    }
}

// ------------------------------------------------------------------
// The session
// ------------------------------------------------------------------
/// How one execution ends, as reported to the request's originator.
#[derive(Debug)]
pub enum ExecuteStatus {
    /// The submission compiled and ran to completion.
    Completed,
    /// The submission was rejected with the formatted diagnostics; nothing
    /// ran and nothing was delivered.
    CompileFailed { errors: String },
    /// The submission trapped at run time; the formatted error was appended
    /// to the transcript and is also reported as the terminal error.
    RuntimeFailed { errors: String },
}

/// What running an accepted program does: given the clock reading `now` and
/// the measured duration `dur` in milliseconds, the machine semantics fix
/// the final globals, the transcript and the reported status.
pub open spec fn exec_post(
    prog: Seq<RStmt>,
    ginit: Seq<Option<SVal>>,
    sink0: SinkView,
    gfin: Seq<Option<SVal>>,
    sinkfin: SinkView,
    r: ExecuteStatus,
    now: i64,
    dur: u64,
) -> bool {
    let init = VmSt { stack: Seq::empty(), globals: ginit, out: Seq::empty(), now_secs: now };
    match run(gen_prog(prog, 0), 0, init) {
        RunRes::Done(st) => {
            &&& r is Completed
            &&& gfin == st.globals
            &&& sinkfin == sink_after(sink0, st.out.push(info_line(dur as nat)))
        },
        RunRes::Trapped { st, msg, line } => {
            let text = runtime_error_text(msg, line as nat);
            &&& r matches ExecuteStatus::RuntimeFailed { errors } && errors@ == text
            &&& gfin == st.globals
            &&& sinkfin == sink_after(sink0, st.out.push(text))
        },
    }
}

/// One engine session: the persistent symbol table, type environment and
/// global store shared by the bootstrap and every submission.
pub struct Session {
    names: Vec<Vec<char>>,
    types: Vec<Ty>,
    globals: Vec<Option<Value>>,
    clock_floor: i64,
}

impl Session {
    /// The symbol table: slot index to name.
    pub closed spec fn names_v(&self) -> Seq<Seq<char>> {
        names_view(self.names@)
    }

    /// The type of each slot.
    pub closed spec fn types_v(&self) -> Seq<Ty> {
        self.types@
    }

    /// The value of each slot.
    pub closed spec fn globals_v(&self) -> Seq<Option<SVal>> {
        gvals(self.globals@)
    }

    /// The largest clock reading any execution of this session has seen:
    /// `clock` never appears to run backwards within one session, even if
    /// the machine's clock does.
    pub closed spec fn clock_floor(&self) -> i64 {
        self.clock_floor
    }

    /// The table, environment and store stay aligned slot for slot.
    pub closed spec fn wf(&self) -> bool {
        self.names@.len() == self.types@.len() && self.names@.len() == self.globals@.len()
    }

    /// Creates a session and bootstraps it: the builtins are registered,
    /// the bootstrap chunk is generated and interpreted exactly once, and
    /// every later submission reuses the slots it assigned.
    pub fn new() -> (s: Session)
        ensures
            s.wf(),
            s.names_v() == builtin_names(),
            s.types_v() == builtin_tys(),
            s.globals_v() == builtin_globals(),
            s.clock_floor() == 0,
    {
        let reg = standard_registry();
        let chunk = gen_bootstrap(&reg);
        let n = reg.len();
        let mut names: Vec<Vec<char>> = Vec::new();
        let mut types: Vec<Ty> = Vec::new();
        let mut globals: Vec<Option<Value>> = Vec::new();
        let mut i: usize = 0;
        while i < n
            invariant
                i <= n,
                n == reg.names_v().len(),
                reg.wf(),
                reg.names_v() == builtin_names(),
                reg.ids_v() == builtin_ids(),
                reg.tys_v() == builtin_tys(),
                names_view(names@) =~= reg.names_v().take(i as int),
                types@ =~= reg.tys_v().take(i as int),
                globals@.len() == i,
                forall|j: int| 0 <= j < i ==> globals@[j] is None,
            decreases n - i,
        {
            let nm = reg.name_at(i);
            let ghost nmv = nm@;
            let ghost names_pre = names_view(names@);
            names.push(nm);
            types.push(reg.ty_at(i));
            globals.push(None);
            proof {
                assert(names_view(names@) =~= names_pre.push(nmv));
                assert(names_pre.push(nmv) =~= reg.names_v().take(i + 1));
                assert(types@ =~= reg.tys_v().take(i + 1));
            }
            i = i + 1;
        }
        let mut scratch = OutputSink::new();
        let ghost g0 = gvals(globals@);
        proof {
            assert(names_view(names@) =~= builtin_names());
            assert(types@ =~= builtin_tys());
            assert(g0.len() == 5 && forall|j: int| 0 <= j < 5 ==> g0[j] is None);
            lemma_boot_run(builtin_ids(), 0, init_st(globals@, 0));
            lemma_fill_natives_at(g0, builtin_ids(), 0);
            assert(fill_natives(g0, builtin_ids(), 0) =~= builtin_globals());
        }
        let res = interpret(&chunk, &mut globals, &mut scratch, 0);
        match res {
            InterpretResult::Completed => {
                let s = Session { names, types, globals, clock_floor: 0 };
                proof {
                    assert(s.globals_v() == builtin_globals());
                }
                s
            },
            InterpretResult::RuntimeError { .. } => unreached(),
        }
    }

    /// Compiles and executes one submission against this session.
    ///
    /// A rejected submission reports the formatted diagnostics and leaves
    /// both the session and the sink untouched. An accepted one commits the
    /// extended symbol table and type environment — extending only, so every
    /// existing slot keeps its index — pads the global store, and runs the
    /// generated chunk: each printed line is streamed through the sink as it
    /// is produced; on completion the timing line is appended and delivered;
    /// on a trap the runtime error lines are appended and delivered and the
    /// same text is the terminal error.
    #[verifier::rlimit(60)]
    pub fn execute(&mut self, source: &str, sink: &mut OutputSink) -> (r: ExecuteStatus)
        requires
            old(self).wf(),
        ensures
            final(self).wf(),
            extends(old(self).names_v(), final(self).names_v()),
            final(self).clock_floor() >= old(self).clock_floor(),
            spec_compile(source@, old(self).names_v(), old(self).types_v()) matches
                CompileOut::Reject { text } ==> {
                &&& r matches ExecuteStatus::CompileFailed { errors } && errors@ == text
                &&& final(self).names_v() == old(self).names_v()
                &&& final(self).types_v() == old(self).types_v()
                &&& final(self).globals_v() == old(self).globals_v()
                &&& final(self).clock_floor() == old(self).clock_floor()
                &&& final(sink)@ == old(sink)@
            },
            spec_compile(source@, old(self).names_v(), old(self).types_v()) matches
                CompileOut::Accept { prog, names, types } ==> {
                &&& final(self).names_v() == names
                &&& final(self).types_v() == types
                &&& exists|now: i64, dur: u64|
                    exec_post(
                        prog,
                        pad_globals(old(self).globals_v(), names.len() as int),
                        old(sink)@,
                        final(self).globals_v(),
                        final(sink)@,
                        r,
                        now,
                        dur,
                    )
            },
    {
        let src_chars = chars_vec(source);
        let mut diags = Source::new();
        let toks = match tokenize(&src_chars) {
            Ok(t) => t,
            Err(line) => {
                diags.add_diagnostic(syntax_diag_string(line));
                let text = diags.format_diagnostics();
                proof {
                    assert(diags@.drop_last() =~= Seq::<Seq<char>>::empty());
                    assert(concat_texts(Seq::<Seq<char>>::empty()) == Seq::<char>::empty());
                    assert(concat_texts(diags@) =~= Seq::<char>::empty() + diags@.last());
                    assert(concat_texts(diags@) =~= diag_syntax(line));
                }
                return ExecuteStatus::CompileFailed { errors: text };
            },
        };
        let prog_ast = match parse_program(&toks) {
            Ok(p) => p,
            Err(line) => {
                diags.add_diagnostic(syntax_diag_string(line));
                let text = diags.format_diagnostics();
                proof {
                    assert(diags@.drop_last() =~= Seq::<Seq<char>>::empty());
                    assert(concat_texts(Seq::<Seq<char>>::empty()) == Seq::<char>::empty());
                    assert(concat_texts(diags@) =~= Seq::<char>::empty() + diags@.last());
                    assert(concat_texts(diags@) =~= diag_syntax(line));
                }
                return ExecuteStatus::CompileFailed { errors: text };
            },
        };
        let mut names2 = copy_names(&self.names);
        let rprog = resolve_program(&src_chars, &mut names2, &prog_ast);
        let mut types2 = copy_types(&self.types);
        let ghost types_before_pad = types2@;
        while types2.len() < names2.len()
            invariant
                types_before_pad.len() <= types2@.len(),
                types2@.len() <= names2@.len() || types2@.len() == types_before_pad.len(),
                types2@.subrange(0, types_before_pad.len() as int) =~= types_before_pad,
                forall|j: int|
                    types_before_pad.len() <= j < types2@.len() ==> types2@[j] == Ty::Unknown,
            decreases names2.len() - types2.len(),
        {
            types2.push(Ty::Unknown);
        }
        proof {
            assert(types2@ =~= pad_types(types_before_pad, names_view(names2@).len() as int));
        }
        let errs = check_program(&mut types2, &rprog);
        if errs.len() > 0 {
            let mut k: usize = 0;
            while k < errs.len()
                invariant
                    k <= errs.len(),
                    diags@ =~= errs@.take(k as int).map_values(|e: TyErrAt| ty_diag(e)),
                decreases errs.len() - k,
            {
                diags.add_diagnostic(ty_diag_string(&errs[k]));
                proof {
                    assert(diags@ =~= errs@.take(k + 1).map_values(|e: TyErrAt| ty_diag(e)));
                }
                k = k + 1;
            }
            let text = diags.format_diagnostics();
            proof {
                assert(errs@.take(errs@.len() as int) =~= errs@);
                assert(text@ == ty_diags_text(errs@));
            }
            return ExecuteStatus::CompileFailed { errors: text };
        }
        proof {
            assert(spec_compile(source@, old(self).names_v(), old(self).types_v())
                == (CompileOut::Accept {
                prog: rprog@,
                names: names_view(names2@),
                types: types2@,
            }));
        }
        let ghost names2v = names_view(names2@);
        let ghost types2v = types2@;
        proof {
            assert(names2v.len() == names2@.len());
            assert(types_before_pad.len() == old(self).types_v().len());
            assert(old(self).types_v().len() == old(self).names_v().len());
            assert(old(self).names_v().len() <= names2v.len());
            assert(types2v.len() == names2v.len());
        }
        // Commit: slots are only appended, so every existing index is kept.
        self.names = names2;
        self.types = types2;
        let ghost names_committed = self.names@;
        let ghost types_committed = self.types@;
        let ghost g_before = gvals(self.globals@);
        while self.globals.len() < self.names.len()
            invariant
                self.names@ == names_committed,
                self.types@ == types_committed,
                self.clock_floor == old(self).clock_floor,
                g_before.len() <= gvals(self.globals@).len(),
                gvals(self.globals@).len() <= self.names@.len() || gvals(self.globals@).len()
                    == g_before.len(),
                gvals(self.globals@).subrange(0, g_before.len() as int) =~= g_before,
                forall|j: int|
                    g_before.len() <= j < gvals(self.globals@).len() ==> gvals(self.globals@)[j]
                        is None,
            decreases self.names.len() - self.globals.len(),
        {
            let ghost gpre = gvals(self.globals@);
            self.globals.push(None);
            proof {
                assert(gvals(self.globals@) =~= gpre.push(None));
            }
        }
        proof {
            assert(names_view(self.names@) == names2v);
            assert(self.names@.len() == names2v.len());
            assert(self.types@.len() == self.names@.len());
            assert(gvals(self.globals@).len() == self.globals@.len());
            assert(g_before.len() == old(self).globals_v().len());
            assert(old(self).globals_v().len() == old(self).names_v().len());
            assert(self.globals@.len() == self.names@.len());
            assert(g_before == old(self).globals_v());
            assert(gvals(self.globals@) =~= pad_globals(g_before, self.names@.len() as int));
        }
        let ghost ginit = gvals(self.globals@);
        proof {
            assert(ginit == pad_globals(old(self).globals_v(), names2v.len() as int));
        }
        let chunk = codegen_program(&rprog);
        let t0 = system_now();
        let start_ms = millis_since_epoch(&t0);
        proof {
            assert(start_ms / 1000 <= u64::MAX / 1000);
        }
        let measured: i64 = (start_ms / 1000) as i64;
        let now_secs: i64 = if measured >= self.clock_floor {
            measured
        } else {
            self.clock_floor
        };
        self.clock_floor = now_secs;
        let ghost init = VmSt {
            stack: Seq::<SVal>::empty(),
            globals: ginit,
            out: Seq::<Seq<char>>::empty(),
            now_secs,
        };
        proof {
            assert(init == init_st(self.globals@, now_secs));
        }
        let ghost names_fixed = self.names@;
        let ghost types_fixed = self.types@;
        let res = interpret(&chunk, &mut self.globals, sink, now_secs);
        proof {
            lemma_run_globals_len(chunk.ops@, 0, init);
            assert(self.names@ == names_fixed);
            assert(self.types@ == types_fixed);
            assert(gvals(self.globals@).len() == ginit.len());
            assert(self.globals@.len() == self.names@.len());
            assert(names_view(self.names@) == names2v);
            assert(self.types@ == types2v);
        }
        match res {
            InterpretResult::Completed => {
                let t1 = system_now();
                let end_ms = millis_since_epoch(&t1);
                let dur: u64 = if end_ms >= start_ms {
                    end_ms - start_ms
                } else {
                    0
                };
                let info = info_line_string(dur);
                proof {
                    let st = run(chunk.ops@, 0, init)->Done_0;
                    lemma_sink_after_push(old(sink)@, st.out, info@);
                }
                sink.note(info.as_str());
                proof {
                    assert(exec_post(
                        rprog@,
                        pad_globals(old(self).globals_v(), names2v.len() as int),
                        old(sink)@,
                        self.globals_v(),
                        sink@,
                        ExecuteStatus::Completed,
                        now_secs,
                        dur,
                    ));
                    let ghost c = spec_compile(source@, old(self).names_v(), old(self).types_v());
                    assert(c is Accept);
                    assert(c->Accept_prog == rprog@);
                    assert(c->Accept_names == names2v);
                    assert(c->Accept_types == types2v);
                    assert(self.names_v() == names2v);
                    assert(self.types_v() == types2v);
                    assert(exists|now: i64, dur: u64|
                        exec_post(
                            c->Accept_prog,
                            pad_globals(old(self).globals_v(), c->Accept_names.len() as int),
                            old(sink)@,
                            self.globals_v(),
                            sink@,
                            ExecuteStatus::Completed,
                            now,
                            dur,
                        ));
                }
                ExecuteStatus::Completed
            },
            InterpretResult::RuntimeError { message, line } => {
                let text = runtime_error_string(message.as_str(), line);
                proof {
                    let st = run(chunk.ops@, 0, init)->Trapped_st;
                    lemma_sink_after_push(old(sink)@, st.out, text@);
                }
                sink.note(text.as_str());
                let r = ExecuteStatus::RuntimeFailed { errors: text };
                proof {
                    assert(exec_post(
                        rprog@,
                        pad_globals(old(self).globals_v(), names2v.len() as int),
                        old(sink)@,
                        self.globals_v(),
                        sink@,
                        r,
                        now_secs,
                        0u64,
                    ));
                    let ghost c = spec_compile(source@, old(self).names_v(), old(self).types_v());
                    assert(c is Accept);
                    assert(c->Accept_prog == rprog@);
                    assert(c->Accept_names == names2v);
                    assert(c->Accept_types == types2v);
                    assert(self.names_v() == names2v);
                    assert(self.types_v() == types2v);
                    assert(exists|now: i64, dur: u64|
                        exec_post(
                            c->Accept_prog,
                            pad_globals(old(self).globals_v(), c->Accept_names.len() as int),
                            old(sink)@,
                            self.globals_v(),
                            sink@,
                            r,
                            now,
                            dur,
                        ));
                }
                r
            },
        }
    }
}

/// Slot stability across any chain of submissions: a table that extends one
/// whose first slots are the builtins keeps the builtins at those slots.
pub proof fn lemma_builtin_slots_stable(a: Seq<Seq<char>>, b: Seq<Seq<char>>)
    requires
        extends(a, b),
        a.len() >= 5,
        a.subrange(0, 5) == builtin_names(),
    ensures
        b.subrange(0, 5) == builtin_names(),
{
    assert(b.subrange(0, 5) =~= a.subrange(0, 5));
}

} // verus!
