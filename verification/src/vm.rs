//! The virtual machine: a stack machine over global slots, with an exact
//! big-step specification.
//!
//! `run` states, for a given instruction sequence, starting globals and a
//! clock reading, exactly which final state, printed fragments and outcome
//! the machine produces; `interpret` is proved to realise it, streaming each
//! printed fragment through the output sink as it is produced. Numbers are
//! 64-bit signed integers; arithmetic that leaves their range is a trapped
//! runtime error, as is division by zero, reading a slot that holds no value
//! yet, and calling a value that is not a function.

use vstd::prelude::*;

use crate::codegen::{Chunk, NativeId, Op};
use crate::fmt::{dec_rep, stdout_line, stdout_line_string, u64_to_string};
use crate::lexer::{
    chars_vec, digits_end, digits_val, lemma_digits_run, lemma_digits_val_bound,
    lemma_pow10_at_18, lemma_pow10_mono, read_digits, scan_digits_end,
};
use crate::sink::{lemma_sink_after_push, sink_after, OutputSink};

verus! {

/// A runtime value.
#[derive(Debug)]
pub enum Value {
    Num(i64),
    Bool(bool),
    Str(String),
    Native(NativeId),
}

/// The abstract form of a runtime value.
pub enum SVal {
    SNum(i64),
    SBool(bool),
    SStr(Seq<char>),
    SNative(NativeId),
}

/// The abstraction of a runtime value.
pub open spec fn vview(v: Value) -> SVal {
    match v {
        Value::Num(n) => SVal::SNum(n),
        Value::Bool(b) => SVal::SBool(b),
        Value::Str(s) => SVal::SStr(s@),
        Value::Native(id) => SVal::SNative(id),
    }
}

/// The abstraction of an operand stack.
pub open spec fn svals(s: Seq<Value>) -> Seq<SVal> {
    s.map_values(|v: Value| vview(v))
}

/// The abstraction of the global slot store.
pub open spec fn gvals(g: Seq<Option<Value>>) -> Seq<Option<SVal>> {
    g.map_values(
        |o: Option<Value>|
            match o {
                Some(v) => Some(vview(v)),
                None => None,
            },
    )
}

/// How a value prints.
pub open spec fn value_text(v: SVal) -> Seq<char> {
    match v {
        SVal::SNum(n) => if n >= 0 {
            dec_rep(n as nat)
        } else {
            "-"@ + dec_rep((-(n as int)) as nat)
        },
        SVal::SBool(b) => if b {
            "true"@
        } else {
            "false"@
        },
        SVal::SStr(s) => s,
        SVal::SNative(_) => "<native fn>"@,
    }
}

/// Copies a value, preserving its abstraction.
pub fn value_clone(v: &Value) -> (r: Value)
    ensures
        vview(r) == vview(*v),
{
    match v {
        Value::Num(n) => Value::Num(*n),
        Value::Bool(b) => Value::Bool(*b),
        Value::Str(s) => Value::Str(s.clone()),
        Value::Native(id) => Value::Native(*id),
    }
}

/// Renders a value the way `println` and `str` show it.
pub fn value_text_string(v: &Value) -> (s: String)
    ensures
        s@ == value_text(vview(*v)),
{
    match v {
        Value::Num(n) => {
            if *n >= 0 {
                u64_to_string(*n as u64)
            } else {
                let mag: u64 = if *n == i64::MIN {
                    9223372036854775808u64
                } else {
                    (-*n) as u64
                };
                let mut s = "-".to_owned();
                let digits = u64_to_string(mag);
                s.append(digits.as_str());
                proof {
                    assert(mag as int == -(*n as int));
                    assert(s@ =~= value_text(vview(*v)));
                }
                s
            }
        },
        Value::Bool(b) => {
            if *b {
                "true".to_owned()
            } else {
                "false".to_owned()
            }
        },
        Value::Str(s) => s.clone(),
        Value::Native(_) => "<native fn>".to_owned(),
    }
}

/// The integer a number-like text denotes: an optional leading `-`, then one
/// to eighteen decimal digits and nothing else.
pub open spec fn parse_num_text(s: Seq<char>) -> Option<i64> {
    let start: int = if s.len() > 0 && s[0] == '-' {
        1
    } else {
        0
    };
    if s.len() <= start {
        None
    } else if digits_end(s, start) != s.len() {
        None
    } else if s.len() - start > 18 {
        None
    } else {
        let v = digits_val(s, start, s.len() as int);
        if start == 1 {
            Some((-(v as int)) as i64)
        } else {
            Some(v as i64)
        }
    }
}

/// Parses a number out of a character vector.
fn parse_num_chars(v: &Vec<char>) -> (r: Option<i64>)
    ensures
        r == parse_num_text(v@),
{
    let n = v.len();
    let neg = n > 0 && v[0] == '-';
    let start: usize = if neg {
        1
    } else {
        0
    };
    if start >= n {
        return None;
    }
    let j = scan_digits_end(v, start);
    if j < n {
        return None;
    }
    if n - start > 18 {
        return None;
    }
    proof {
        lemma_digits_run(v@, start as int);
        lemma_digits_val_bound(v@, start as int, n as int);
        lemma_pow10_mono((n - start) as nat, 18nat);
        lemma_pow10_at_18();
    }
    let val = read_digits(v, start, n);
    if neg {
        Some(-val)
    } else {
        Some(val)
    }
}

/// The machine state: operand stack, global slots, the printed fragments so
/// far, and the clock reading this execution sees.
#[verifier::ext_equal]
pub struct VmSt {
    pub stack: Seq<SVal>,
    pub globals: Seq<Option<SVal>>,
    pub out: Seq<Seq<char>>,
    pub now_secs: i64,
}

/// The result of one instruction.
pub enum StepRes {
    Next(VmSt),
    Trap { msg: Seq<char>, line: u64 },
}

/// The result of a binary arithmetic instruction on the operand stack.
pub enum ArithRes {
    NextS(Seq<SVal>),
    TrapS { msg: Seq<char>, line: u64 },
}

pub open spec fn msg_underflow() -> Seq<char> {
    "stack underflow"@
}

pub open spec fn msg_invalid_slot() -> Seq<char> {
    "invalid slot"@
}

pub open spec fn msg_undefined() -> Seq<char> {
    "undefined variable"@
}

pub open spec fn msg_expect_num() -> Seq<char> {
    "operand must be a number"@
}

pub open spec fn msg_div_zero() -> Seq<char> {
    "division by zero"@
}

pub open spec fn msg_overflow() -> Seq<char> {
    "number overflow"@
}

pub open spec fn msg_not_fn() -> Seq<char> {
    "value is not a function"@
}

pub open spec fn msg_wrong_args() -> Seq<char> {
    "wrong number of arguments"@
}

pub open spec fn msg_parse() -> Seq<char> {
    "cannot parse number"@
}

pub open spec fn in_i64(n: int) -> bool {
    i64::MIN <= n <= i64::MAX
}

/// Truncating signed division, stated over magnitudes.
pub open spec fn div_trunc(a: int, b: int) -> int
    recommends
        b != 0,
{
    let ma = if a >= 0 {
        a
    } else {
        -a
    };
    let mb = if b >= 0 {
        b
    } else {
        -b
    };
    let q = ma / mb;
    if (a >= 0) == (b >= 0) {
        q
    } else {
        -q
    }
}

/// What a binary arithmetic instruction does to the operand stack; `which`
/// selects the operator (0 add, 1 subtract, 2 multiply, 3 divide). Both
/// operands must be numbers, a divisor must be nonzero, and the result must
/// fit the number range.
pub open spec fn arith_stack(stack: Seq<SVal>, line: u64, which: int) -> ArithRes {
    if stack.len() < 2 {
        ArithRes::TrapS { msg: msg_underflow(), line }
    } else {
        let r = stack.last();
        let l = stack[stack.len() - 2];
        let stack1 = stack.drop_last().drop_last();
        match (l, r) {
            (SVal::SNum(a), SVal::SNum(b)) => {
                if which == 3 && b == 0 {
                    ArithRes::TrapS { msg: msg_div_zero(), line }
                } else {
                    let res: int = if which == 0 {
                        a + b
                    } else if which == 1 {
                        a - b
                    } else if which == 2 {
                        a * b
                    } else {
                        div_trunc(a as int, b as int)
                    };
                    if !in_i64(res) {
                        ArithRes::TrapS { msg: msg_overflow(), line }
                    } else {
                        ArithRes::NextS(stack1.push(SVal::SNum(res as i64)))
                    }
                }
            },
            _ => ArithRes::TrapS { msg: msg_expect_num(), line },
        }
    }
}

/// What one native call does to a stack from which the callee and argument
/// have already been popped (`stack1`). `arg` is the argument, if one was
/// passed.
pub open spec fn native_step(
    id: NativeId,
    arg: Option<SVal>,
    stack1: Seq<SVal>,
    st: VmSt,
    line: u64,
) -> StepRes {
    match id {
        NativeId::Println => match arg {
            Some(a) => StepRes::Next(
                VmSt {
                    stack: stack1.push(SVal::SBool(true)),
                    out: st.out.push(stdout_line(value_text(a))),
                    ..st
                },
            ),
            None => StepRes::Trap { msg: msg_wrong_args(), line },
        },
        NativeId::Clock => match arg {
            None => StepRes::Next(VmSt { stack: stack1.push(SVal::SNum(st.now_secs)), ..st }),
            Some(_) => StepRes::Trap { msg: msg_wrong_args(), line },
        },
        NativeId::IsNan => match arg {
            Some(SVal::SNum(_)) => StepRes::Next(
                VmSt { stack: stack1.push(SVal::SBool(false)), ..st },
            ),
            Some(_) => StepRes::Trap { msg: msg_expect_num(), line },
            None => StepRes::Trap { msg: msg_wrong_args(), line },
        },
        NativeId::ParseNumber => match arg {
            Some(SVal::SNum(n)) => StepRes::Next(VmSt { stack: stack1.push(SVal::SNum(n)), ..st }),
            Some(SVal::SStr(s)) => match parse_num_text(s) {
                Some(n) => StepRes::Next(VmSt { stack: stack1.push(SVal::SNum(n)), ..st }),
                None => StepRes::Trap { msg: msg_parse(), line },
            },
            Some(_) => StepRes::Trap { msg: msg_parse(), line },
            None => StepRes::Trap { msg: msg_wrong_args(), line },
        },
        NativeId::Str => match arg {
            Some(a) => StepRes::Next(
                VmSt { stack: stack1.push(SVal::SStr(value_text(a))), ..st },
            ),
            None => StepRes::Trap { msg: msg_wrong_args(), line },
        },
    }
}

/// What one instruction does to the machine state.
pub open spec fn step(op: Op, st: VmSt) -> StepRes {
    match op {
        Op::PushNum { val } => StepRes::Next(VmSt { stack: st.stack.push(SVal::SNum(val)), ..st }),
        Op::PushBool { val } => StepRes::Next(
            VmSt { stack: st.stack.push(SVal::SBool(val)), ..st },
        ),
        Op::PushNative { id } => StepRes::Next(
            VmSt { stack: st.stack.push(SVal::SNative(id)), ..st },
        ),
        Op::Load { slot, line } => {
            if (slot as int) < st.globals.len() {
                match st.globals[slot as int] {
                    Some(v) => StepRes::Next(VmSt { stack: st.stack.push(v), ..st }),
                    None => StepRes::Trap { msg: msg_undefined(), line },
                }
            } else {
                StepRes::Trap { msg: msg_undefined(), line }
            }
        },
        Op::Store { slot } => {
            if st.stack.len() < 1 {
                StepRes::Trap { msg: msg_underflow(), line: 0 }
            } else if (slot as int) >= st.globals.len() {
                StepRes::Trap { msg: msg_invalid_slot(), line: 0 }
            } else {
                StepRes::Next(
                    VmSt {
                        stack: st.stack.drop_last(),
                        globals: st.globals.update(slot as int, Some(st.stack.last())),
                        ..st
                    },
                )
            }
        },
        Op::Pop => {
            if st.stack.len() < 1 {
                StepRes::Trap { msg: msg_underflow(), line: 0 }
            } else {
                StepRes::Next(VmSt { stack: st.stack.drop_last(), ..st })
            }
        },
        Op::Add { line } => lift_arith(st, line, 0),
        Op::Sub { line } => lift_arith(st, line, 1),
        Op::Mul { line } => lift_arith(st, line, 2),
        Op::Div { line } => lift_arith(st, line, 3),
        Op::Neg { line } => {
            if st.stack.len() < 1 {
                StepRes::Trap { msg: msg_underflow(), line }
            } else {
                match st.stack.last() {
                    SVal::SNum(n) => {
                        if n == i64::MIN {
                            StepRes::Trap { msg: msg_overflow(), line }
                        } else {
                            StepRes::Next(
                                VmSt {
                                    stack: st.stack.drop_last().push(
                                        SVal::SNum((-(n as int)) as i64),
                                    ),
                                    ..st
                                },
                            )
                        }
                    },
                    _ => StepRes::Trap { msg: msg_expect_num(), line },
                }
            }
        },
        Op::CallV { has_arg, line } => {
            if has_arg {
                if st.stack.len() < 2 {
                    StepRes::Trap { msg: msg_underflow(), line }
                } else {
                    let arg = st.stack.last();
                    let callee = st.stack[st.stack.len() - 2];
                    let stack1 = st.stack.drop_last().drop_last();
                    match callee {
                        SVal::SNative(id) => native_step(id, Some(arg), stack1, st, line),
                        _ => StepRes::Trap { msg: msg_not_fn(), line },
                    }
                }
            } else {
                if st.stack.len() < 1 {
                    StepRes::Trap { msg: msg_underflow(), line }
                } else {
                    let callee = st.stack.last();
                    let stack1 = st.stack.drop_last();
                    match callee {
                        SVal::SNative(id) => native_step(id, None, stack1, st, line),
                        _ => StepRes::Trap { msg: msg_not_fn(), line },
                    }
                }
            }
        },
    }
}

/// Lifts an arithmetic stack step to the whole machine state.
pub open spec fn lift_arith(st: VmSt, line: u64, which: int) -> StepRes {
    match arith_stack(st.stack, line, which) {
        ArithRes::NextS(s2) => StepRes::Next(VmSt { stack: s2, ..st }),
        ArithRes::TrapS { msg, line: l } => StepRes::Trap { msg, line: l },
    }
}

/// The outcome of running a whole instruction sequence: the final state, or
/// a trap with the state just before the failing instruction (its printed
/// fragments are preserved).
pub enum RunRes {
    Done(VmSt),
    Trapped { st: VmSt, msg: Seq<char>, line: u64 },
}

/// Runs the instructions from `i` on.
pub open spec fn run(ops: Seq<Op>, i: int, st: VmSt) -> RunRes
    decreases ops.len() - i,
{
    if !(0 <= i < ops.len()) {
        RunRes::Done(st)
    } else {
        match step(ops[i], st) {
            StepRes::Next(st2) => run(ops, i + 1, st2),
            StepRes::Trap { msg, line } => RunRes::Trapped { st, msg, line },
        }
    }
}

/// Running from a position whose instruction steps to `st2` continues there.
pub proof fn lemma_run_next(ops: Seq<Op>, i: int, st: VmSt, st2: VmSt)
    requires
        0 <= i < ops.len(),
        step(ops[i], st) == StepRes::Next(st2),
    ensures
        run(ops, i, st) == run(ops, i + 1, st2),
{
}

/// Running from a position whose instruction traps stops with the state
/// before that instruction.
pub proof fn lemma_run_trap(ops: Seq<Op>, i: int, st: VmSt)
    requires
        0 <= i < ops.len(),
        step(ops[i], st) is Trap,
    ensures
        run(ops, i, st) matches RunRes::Trapped { st: st1, msg, line } && st1 == st && (
        StepRes::Trap { msg, line }) == step(ops[i], st),
{
}

/// One instruction never changes how many global slots there are.
pub proof fn lemma_step_globals_len(op: Op, st: VmSt)
    ensures
        step(op, st) matches StepRes::Next(st2) ==> st2.globals.len() == st.globals.len()
            && st2.now_secs == st.now_secs,
{
}

/// A whole run never changes how many global slots there are.
pub proof fn lemma_run_globals_len(ops: Seq<Op>, i: int, st: VmSt)
    ensures
        run(ops, i, st) matches RunRes::Done(st2) ==> st2.globals.len() == st.globals.len(),
        run(ops, i, st) matches RunRes::Trapped { st: st2, .. } ==> st2.globals.len()
            == st.globals.len(),
    decreases ops.len() - i,
{
    if 0 <= i < ops.len() {
        lemma_step_globals_len(ops[i], st);
        match step(ops[i], st) {
            StepRes::Next(st2) => {
                lemma_run_globals_len(ops, i + 1, st2);
            },
            StepRes::Trap { .. } => {},
        }
    }
}

/// Running a concatenation from the end of its prefix is running the rest.
pub proof fn lemma_run_shift(pre: Seq<Op>, rest: Seq<Op>, j: int, st: VmSt)
    requires
        0 <= j <= rest.len(),
    ensures
        run(pre + rest, pre.len() + j, st) == run(rest, j, st),
    decreases rest.len() - j,
{
    let ops = pre + rest;
    if j < rest.len() {
        assert(ops[pre.len() + j] == rest[j]);
        match step(rest[j], st) {
            StepRes::Next(st2) => {
                lemma_run_shift(pre, rest, j + 1, st2);
            },
            StepRes::Trap { .. } => {},
        }
    }
}

/// The outcome `interpret` reports.
#[derive(Debug)]
pub enum InterpretResult {
    /// The chunk ran to completion.
    Completed,
    /// The chunk trapped; the engine stays usable.
    RuntimeError { message: String, line: u64 },
}

/// The initial machine state for a chunk run.
pub open spec fn init_st(globals: Seq<Option<Value>>, now_secs: i64) -> VmSt {
    VmSt { stack: Seq::empty(), globals: gvals(globals), out: Seq::empty(), now_secs }
}

/// Performs one binary arithmetic instruction on the executable stack.
fn arith_exec(stack: &mut Vec<Value>, which: u8, line: u64) -> (r: Result<(), (String, u64)>)
    requires
        which <= 3,
    ensures
        r matches Ok(()) ==> arith_stack(svals(old(stack)@), line, which as int)
            == ArithRes::NextS(svals(final(stack)@)),
        r matches Err(p) ==> arith_stack(svals(old(stack)@), line, which as int)
            == (ArithRes::TrapS { msg: p.0@, line: p.1 }),
{
    let ghost st0 = svals(stack@);
    if stack.len() < 2 {
        return Err(("stack underflow".to_owned(), line));
    }
    let rv = stack.pop().unwrap();
    let lv = stack.pop().unwrap();
    proof {
        assert(vview(rv) == st0.last());
        assert(vview(lv) == st0[st0.len() - 2]);
        assert(svals(stack@) =~= st0.drop_last().drop_last());
    }
    let (a, b) = match (lv, rv) {
        (Value::Num(a), Value::Num(b)) => (a, b),
        _ => {
            return Err(("operand must be a number".to_owned(), line));
        },
    };
    let res: i64 = if which == 0 {
        let w: i128 = a as i128 + b as i128;
        if w < i64::MIN as i128 || w > i64::MAX as i128 {
            return Err(("number overflow".to_owned(), line));
        }
        w as i64
    } else if which == 1 {
        let w: i128 = a as i128 - b as i128;
        if w < i64::MIN as i128 || w > i64::MAX as i128 {
            return Err(("number overflow".to_owned(), line));
        }
        w as i64
    } else if which == 2 {
        proof {
            assert((a as i128) * (b as i128) <= i128::MAX && (a as i128) * (b as i128)
                >= i128::MIN) by (nonlinear_arith)
                requires
                    -0x8000_0000_0000_0000 <= a as i128 <= 0x7fff_ffff_ffff_ffff,
                    -0x8000_0000_0000_0000 <= b as i128 <= 0x7fff_ffff_ffff_ffff,
            ;
        }
        let w: i128 = a as i128 * b as i128;
        if w < i64::MIN as i128 || w > i64::MAX as i128 {
            return Err(("number overflow".to_owned(), line));
        }
        w as i64
    } else {
        if b == 0 {
            return Err(("division by zero".to_owned(), line));
        }
        let ma: u64 = if a >= 0 {
            a as u64
        } else {
            (-(a as i128)) as u64
        };
        let mb: u64 = if b >= 0 {
            b as u64
        } else {
            (-(b as i128)) as u64
        };
        let q: u64 = ma / mb;
        proof {
            assert(ma as int == if a as int >= 0 {
                a as int
            } else {
                -(a as int)
            });
            assert(mb as int == if b as int >= 0 {
                b as int
            } else {
                -(b as int)
            });
            assert(q as int == ma as int / mb as int);
        }
        if (a >= 0) == (b >= 0) {
            if q > i64::MAX as u64 {
                proof {
                    assert(div_trunc(a as int, b as int) == q as int);
                }
                return Err(("number overflow".to_owned(), line));
            }
            q as i64
        } else {
            proof {
                assert(q <= ma);
                assert(div_trunc(a as int, b as int) == -(q as int));
            }
            (-(q as i128)) as i64
        }
    };
    stack.push(Value::Num(res));
    proof {
        assert(svals(stack@) =~= st0.drop_last().drop_last().push(SVal::SNum(res)));
    }
    Ok(())
}

/// Interprets one chunk against the global store, streaming every printed
/// fragment through the sink as it is produced. Partial output printed
/// before a trap is kept and has already been delivered.
pub fn interpret(
    chunk: &Chunk,
    globals: &mut Vec<Option<Value>>,
    sink: &mut OutputSink,
    now_secs: i64,
) -> (r: InterpretResult)
    ensures
        ({
            let res = run(chunk.ops@, 0, init_st(old(globals)@, now_secs));
            match res {
                RunRes::Done(st) => r is Completed && gvals(final(globals)@) == st.globals
                    && final(sink)@ == sink_after(old(sink)@, st.out),
                RunRes::Trapped { st, msg, line } => (r matches InterpretResult::RuntimeError {
                    message,
                    line: l,
                } && message@ == msg && l == line) && gvals(final(globals)@) == st.globals
                    && final(sink)@ == sink_after(old(sink)@, st.out),
            }
        }),
{
    let ghost init = init_st(globals@, now_secs);
    let mut stack: Vec<Value> = Vec::new();
    let ghost mut frags: Seq<Seq<char>> = Seq::empty();
    let mut i: usize = 0;
    proof {
        assert(svals(stack@) =~= Seq::<SVal>::empty());
    }
    while i < chunk.ops.len()
        invariant
            i <= chunk.ops.len(),
            init == init_st(old(globals)@, now_secs),
            run(chunk.ops@, 0, init) == run(
                chunk.ops@,
                i as int,
                VmSt { stack: svals(stack@), globals: gvals(globals@), out: frags, now_secs },
            ),
            sink@ == sink_after(old(sink)@, frags),
        decreases chunk.ops.len() - i,
    {
        let ghost cur = VmSt {
            stack: svals(stack@),
            globals: gvals(globals@),
            out: frags,
            now_secs,
        };
        let op = chunk.ops[i];
        match op {
            Op::PushNum { val } => {
                stack.push(Value::Num(val));
                proof {
                    assert(svals(stack@) =~= cur.stack.push(SVal::SNum(val)));
                }
            },
            Op::PushBool { val } => {
                stack.push(Value::Bool(val));
                proof {
                    assert(svals(stack@) =~= cur.stack.push(SVal::SBool(val)));
                }
            },
            Op::PushNative { id } => {
                stack.push(Value::Native(id));
                proof {
                    assert(svals(stack@) =~= cur.stack.push(SVal::SNative(id)));
                }
            },
            Op::Load { slot, line } => {
                let loaded: Option<Value> = if slot < globals.len() {
                    match &globals[slot] {
                        Some(v) => Some(value_clone(v)),
                        None => None,
                    }
                } else {
                    None
                };
                match loaded {
                    Some(v) => {
                        proof {
                            assert(cur.globals[slot as int] == Some(vview(v)));
                        }
                        let ghost pushed = vview(v);
                        stack.push(v);
                        proof {
                            assert(svals(stack@) =~= cur.stack.push(pushed));
                        }
                    },
                    None => {
                        proof {
                            assert(step(op, cur) == (StepRes::Trap { msg: msg_undefined(), line }));
                        }
                        proof {
                            lemma_run_trap(chunk.ops@, i as int, cur);
                        }
                        proof {
                        lemma_run_trap(chunk.ops@, i as int, cur);
                    }
                    return InterpretResult::RuntimeError {
                            message: "undefined variable".to_owned(),
                            line,
                        };
                    },
                }
            },
            Op::Store { slot } => {
                if stack.len() < 1 {
                    proof {
                        assert(step(op, cur) == (StepRes::Trap { msg: msg_underflow(), line: 0 }));
                    }
                    proof {
                        lemma_run_trap(chunk.ops@, i as int, cur);
                    }
                    return InterpretResult::RuntimeError {
                        message: "stack underflow".to_owned(),
                        line: 0,
                    };
                }
                if slot >= globals.len() {
                    proof {
                        assert(step(op, cur) == (StepRes::Trap {
                            msg: msg_invalid_slot(),
                            line: 0,
                        }));
                    }
                    proof {
                        lemma_run_trap(chunk.ops@, i as int, cur);
                    }
                    return InterpretResult::RuntimeError {
                        message: "invalid slot".to_owned(),
                        line: 0,
                    };
                }
                let v = stack.pop().unwrap();
                proof {
                    assert(vview(v) == cur.stack.last());
                    assert(svals(stack@) =~= cur.stack.drop_last());
                }
                let ghost stored = vview(v);
                globals[slot] = Some(v);
                proof {
                    assert(gvals(globals@) =~= cur.globals.update(slot as int, Some(stored)));
                }
            },
            Op::Pop => {
                if stack.len() < 1 {
                    proof {
                        assert(step(op, cur) == (StepRes::Trap { msg: msg_underflow(), line: 0 }));
                    }
                    proof {
                        lemma_run_trap(chunk.ops@, i as int, cur);
                    }
                    return InterpretResult::RuntimeError {
                        message: "stack underflow".to_owned(),
                        line: 0,
                    };
                }
                let _ = stack.pop();
                proof {
                    assert(svals(stack@) =~= cur.stack.drop_last());
                }
            },
            Op::Add { line } => {
                match arith_exec(&mut stack, 0, line) {
                    Ok(()) => {},
                    Err(p) => {
                        proof {
                            assert(step(op, cur) == (StepRes::Trap { msg: p.0@, line: p.1 }));
                        }
                        proof {
                            lemma_run_trap(chunk.ops@, i as int, cur);
                        }
                        proof {
                        lemma_run_trap(chunk.ops@, i as int, cur);
                    }
                    return InterpretResult::RuntimeError { message: p.0, line: p.1 };
                    },
                }
            },
            Op::Sub { line } => {
                match arith_exec(&mut stack, 1, line) {
                    Ok(()) => {},
                    Err(p) => {
                        proof {
                            assert(step(op, cur) == (StepRes::Trap { msg: p.0@, line: p.1 }));
                        }
                        proof {
                            lemma_run_trap(chunk.ops@, i as int, cur);
                        }
                        proof {
                        lemma_run_trap(chunk.ops@, i as int, cur);
                    }
                    return InterpretResult::RuntimeError { message: p.0, line: p.1 };
                    },
                }
            },
            Op::Mul { line } => {
                match arith_exec(&mut stack, 2, line) {
                    Ok(()) => {},
                    Err(p) => {
                        proof {
                            assert(step(op, cur) == (StepRes::Trap { msg: p.0@, line: p.1 }));
                        }
                        proof {
                            lemma_run_trap(chunk.ops@, i as int, cur);
                        }
                        proof {
                        lemma_run_trap(chunk.ops@, i as int, cur);
                    }
                    return InterpretResult::RuntimeError { message: p.0, line: p.1 };
                    },
                }
            },
            Op::Div { line } => {
                match arith_exec(&mut stack, 3, line) {
                    Ok(()) => {},
                    Err(p) => {
                        proof {
                            assert(step(op, cur) == (StepRes::Trap { msg: p.0@, line: p.1 }));
                        }
                        proof {
                            lemma_run_trap(chunk.ops@, i as int, cur);
                        }
                        proof {
                        lemma_run_trap(chunk.ops@, i as int, cur);
                    }
                    return InterpretResult::RuntimeError { message: p.0, line: p.1 };
                    },
                }
            },
            Op::Neg { line } => {
                if stack.len() < 1 {
                    proof {
                        assert(step(op, cur) == (StepRes::Trap { msg: msg_underflow(), line }));
                    }
                    proof {
                        lemma_run_trap(chunk.ops@, i as int, cur);
                    }
                    return InterpretResult::RuntimeError {
                        message: "stack underflow".to_owned(),
                        line,
                    };
                }
                let v = stack.pop().unwrap();
                proof {
                    assert(vview(v) == cur.stack.last());
                    assert(svals(stack@) =~= cur.stack.drop_last());
                }
                match v {
                    Value::Num(n) => {
                        if n == i64::MIN {
                            proof {
                                assert(step(op, cur) == (StepRes::Trap {
                                    msg: msg_overflow(),
                                    line,
                                }));
                            }
                            proof {
                            lemma_run_trap(chunk.ops@, i as int, cur);
                        }
                        proof {
                        lemma_run_trap(chunk.ops@, i as int, cur);
                    }
                    return InterpretResult::RuntimeError {
                                message: "number overflow".to_owned(),
                                line,
                            };
                        }
                        stack.push(Value::Num(-n));
                        proof {
                            assert(svals(stack@) =~= cur.stack.drop_last().push(
                                SVal::SNum((-(n as int)) as i64),
                            ));
                        }
                    },
                    _ => {
                        proof {
                            assert(step(op, cur) == (StepRes::Trap { msg: msg_expect_num(), line }));
                        }
                        proof {
                            lemma_run_trap(chunk.ops@, i as int, cur);
                        }
                        proof {
                        lemma_run_trap(chunk.ops@, i as int, cur);
                    }
                    return InterpretResult::RuntimeError {
                            message: "operand must be a number".to_owned(),
                            line,
                        };
                    },
                }
            },
            Op::CallV { has_arg, line } => {
                let needed: usize = if has_arg {
                    2
                } else {
                    1
                };
                if stack.len() < needed {
                    proof {
                        assert(step(op, cur) == (StepRes::Trap { msg: msg_underflow(), line }));
                    }
                    proof {
                        lemma_run_trap(chunk.ops@, i as int, cur);
                    }
                    return InterpretResult::RuntimeError {
                        message: "stack underflow".to_owned(),
                        line,
                    };
                }
                let arg: Option<Value> = if has_arg {
                    Some(stack.pop().unwrap())
                } else {
                    None
                };
                let callee = stack.pop().unwrap();
                let ghost argv: Option<SVal> = match &arg {
                    Some(a) => Some(vview(*a)),
                    None => None,
                };
                let ghost stack1 = svals(stack@);
                proof {
                    if has_arg {
                        assert(argv == Some(cur.stack.last()));
                        assert(vview(callee) == cur.stack[cur.stack.len() - 2]);
                        assert(stack1 =~= cur.stack.drop_last().drop_last());
                    } else {
                        assert(vview(callee) == cur.stack.last());
                        assert(stack1 =~= cur.stack.drop_last());
                    }
                }
                let id = match callee {
                    Value::Native(id) => id,
                    _ => {
                        proof {
                            assert(step(op, cur) == (StepRes::Trap { msg: msg_not_fn(), line }));
                        }
                        proof {
                            lemma_run_trap(chunk.ops@, i as int, cur);
                        }
                        proof {
                        lemma_run_trap(chunk.ops@, i as int, cur);
                    }
                    return InterpretResult::RuntimeError {
                            message: "value is not a function".to_owned(),
                            line,
                        };
                    },
                };
                proof {
                    assert(step(op, cur) == native_step(id, argv, stack1, cur, line));
                }
                match id {
                    NativeId::Println => {
                        match arg {
                            Some(a) => {
                                let text = value_text_string(&a);
                                let frag = stdout_line_string(text.as_str());
                                proof {
                                    lemma_sink_after_push(old(sink)@, frags, frag@);
                                }
                                sink.note(frag.as_str());
                                proof {
                                    frags = frags.push(frag@);
                                }
                                stack.push(Value::Bool(true));
                                proof {
                                    assert(svals(stack@) =~= stack1.push(SVal::SBool(true)));
                                }
                            },
                            None => {
                                proof {
                                    assert(step(op, cur) == (StepRes::Trap {
                                        msg: msg_wrong_args(),
                                        line,
                                    }));
                                }
                                proof {
                            lemma_run_trap(chunk.ops@, i as int, cur);
                        }
                        proof {
                        lemma_run_trap(chunk.ops@, i as int, cur);
                    }
                    return InterpretResult::RuntimeError {
                                    message: "wrong number of arguments".to_owned(),
                                    line,
                                };
                            },
                        }
                    },
                    NativeId::Clock => {
                        match arg {
                            None => {
                                stack.push(Value::Num(now_secs));
                                proof {
                                    assert(svals(stack@) =~= stack1.push(SVal::SNum(now_secs)));
                                }
                            },
                            Some(_) => {
                                proof {
                                    assert(step(op, cur) == (StepRes::Trap {
                                        msg: msg_wrong_args(),
                                        line,
                                    }));
                                }
                                proof {
                            lemma_run_trap(chunk.ops@, i as int, cur);
                        }
                        proof {
                        lemma_run_trap(chunk.ops@, i as int, cur);
                    }
                    return InterpretResult::RuntimeError {
                                    message: "wrong number of arguments".to_owned(),
                                    line,
                                };
                            },
                        }
                    },
                    NativeId::IsNan => {
                        match arg {
                            Some(Value::Num(_)) => {
                                stack.push(Value::Bool(false));
                                proof {
                                    assert(svals(stack@) =~= stack1.push(SVal::SBool(false)));
                                }
                            },
                            Some(_) => {
                                proof {
                                    assert(step(op, cur) == (StepRes::Trap {
                                        msg: msg_expect_num(),
                                        line,
                                    }));
                                }
                                proof {
                            lemma_run_trap(chunk.ops@, i as int, cur);
                        }
                        proof {
                        lemma_run_trap(chunk.ops@, i as int, cur);
                    }
                    return InterpretResult::RuntimeError {
                                    message: "operand must be a number".to_owned(),
                                    line,
                                };
                            },
                            None => {
                                proof {
                                    assert(step(op, cur) == (StepRes::Trap {
                                        msg: msg_wrong_args(),
                                        line,
                                    }));
                                }
                                proof {
                            lemma_run_trap(chunk.ops@, i as int, cur);
                        }
                        proof {
                        lemma_run_trap(chunk.ops@, i as int, cur);
                    }
                    return InterpretResult::RuntimeError {
                                    message: "wrong number of arguments".to_owned(),
                                    line,
                                };
                            },
                        }
                    },
                    NativeId::ParseNumber => {
                        match arg {
                            Some(Value::Num(n)) => {
                                stack.push(Value::Num(n));
                                proof {
                                    assert(svals(stack@) =~= stack1.push(SVal::SNum(n)));
                                }
                            },
                            Some(Value::Str(s)) => {
                                let cs = chars_vec(s.as_str());
                                match parse_num_chars(&cs) {
                                    Some(n) => {
                                        stack.push(Value::Num(n));
                                        proof {
                                            assert(svals(stack@) =~= stack1.push(SVal::SNum(n)));
                                        }
                                    },
                                    None => {
                                        proof {
                                            assert(step(op, cur) == (StepRes::Trap {
                                                msg: msg_parse(),
                                                line,
                                            }));
                                        }
                                        proof {
                            lemma_run_trap(chunk.ops@, i as int, cur);
                        }
                        proof {
                        lemma_run_trap(chunk.ops@, i as int, cur);
                    }
                    return InterpretResult::RuntimeError {
                                            message: "cannot parse number".to_owned(),
                                            line,
                                        };
                                    },
                                }
                            },
                            Some(_) => {
                                proof {
                                    assert(step(op, cur) == (StepRes::Trap {
                                        msg: msg_parse(),
                                        line,
                                    }));
                                }
                                proof {
                            lemma_run_trap(chunk.ops@, i as int, cur);
                        }
                        proof {
                        lemma_run_trap(chunk.ops@, i as int, cur);
                    }
                    return InterpretResult::RuntimeError {
                                    message: "cannot parse number".to_owned(),
                                    line,
                                };
                            },
                            None => {
                                proof {
                                    assert(step(op, cur) == (StepRes::Trap {
                                        msg: msg_wrong_args(),
                                        line,
                                    }));
                                }
                                proof {
                            lemma_run_trap(chunk.ops@, i as int, cur);
                        }
                        proof {
                        lemma_run_trap(chunk.ops@, i as int, cur);
                    }
                    return InterpretResult::RuntimeError {
                                    message: "wrong number of arguments".to_owned(),
                                    line,
                                };
                            },
                        }
                    },
                    NativeId::Str => {
                        match arg {
                            Some(a) => {
                                let ghost av = vview(a);
                                let text = value_text_string(&a);
                                stack.push(Value::Str(text));
                                proof {
                                    assert(svals(stack@) =~= stack1.push(
                                        SVal::SStr(value_text(av)),
                                    ));
                                }
                            },
                            None => {
                                proof {
                                    assert(step(op, cur) == (StepRes::Trap {
                                        msg: msg_wrong_args(),
                                        line,
                                    }));
                                }
                                proof {
                            lemma_run_trap(chunk.ops@, i as int, cur);
                        }
                        proof {
                        lemma_run_trap(chunk.ops@, i as int, cur);
                    }
                    return InterpretResult::RuntimeError {
                                    message: "wrong number of arguments".to_owned(),
                                    line,
                                };
                            },
                        }
                    },
                }
            },
        }
        proof {
            let next = VmSt {
                stack: svals(stack@),
                globals: gvals(globals@),
                out: frags,
                now_secs,
            };
            assert(step(chunk.ops@[i as int], cur) == StepRes::Next(next));
            lemma_run_next(chunk.ops@, i as int, cur, next);
        }
        i = i + 1;
    }
    proof {
        let cur = VmSt { stack: svals(stack@), globals: gvals(globals@), out: frags, now_secs };
        assert(run(chunk.ops@, i as int, cur) == RunRes::Done(cur));
    }
    InterpretResult::Completed
}

} // verus!
