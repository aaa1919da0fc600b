//! Bytecode generation.
//!
//! `gen_prog` states exactly which instruction sequence a resolved program
//! lowers to; `codegen_program` is proved to emit it. Globals are addressed
//! by the slot indices the resolver assigned, so the bootstrap chunk and
//! every user chunk of one session agree on where each global lives.

use vstd::prelude::*;

use crate::ast::BinOp;
use crate::resolve::{RExpr, RStmt};

verus! {

/// The identity of a native builtin function.
#[derive(Clone, Copy, PartialEq, Eq, Structural, Debug)]
pub enum NativeId {
    Println,
    Clock,
    IsNan,
    ParseNumber,
    Str,
}

/// One bytecode instruction. Instructions that can fail at run time carry
/// the source line to report.
#[derive(Clone, Copy, PartialEq, Eq, Structural, Debug)]
pub enum Op {
    PushNum { val: i64 },
    PushBool { val: bool },
    /// Pushes a native function value; used by the bootstrap chunk.
    PushNative { id: NativeId },
    /// Pushes the value of a global slot; fails if it holds no value yet.
    Load { slot: usize, line: u64 },
    /// Pops the stack into a global slot.
    Store { slot: usize },
    /// Pops and discards the value of an expression statement.
    Pop,
    Add { line: u64 },
    Sub { line: u64 },
    Mul { line: u64 },
    Div { line: u64 },
    Neg { line: u64 },
    /// Calls a callee pushed before the (optional) argument.
    CallV { has_arg: bool, line: u64 },
}

/// A unit of compiled bytecode.
pub struct Chunk {
    pub ops: Vec<Op>,
}

/// The instructions an expression lowers to. Operands are pushed left to
/// right, so each operator finds its right operand on top of the stack.
pub open spec fn gen_expr(e: RExpr) -> Seq<Op>
    decreases e,
{
    match e {
        RExpr::Num { val, .. } => seq![Op::PushNum { val }],
        RExpr::BoolLit { val, .. } => seq![Op::PushBool { val }],
        RExpr::Var { slot, line } => seq![Op::Load { slot, line }],
        RExpr::Neg { e: inner, line } => gen_expr(*inner) + seq![Op::Neg { line }],
        RExpr::Bin { op, lhs, rhs, line } => gen_expr(*lhs) + gen_expr(*rhs) + seq![
            match op {
                BinOp::Add => Op::Add { line },
                BinOp::Sub => Op::Sub { line },
                BinOp::Mul => Op::Mul { line },
                BinOp::Div => Op::Div { line },
            },
        ],
        RExpr::Call { slot, arg, line } => seq![Op::Load { slot, line }] + match arg {
            None => Seq::empty(),
            Some(a) => gen_expr(*a),
        } + seq![Op::CallV { has_arg: arg is Some, line }],
    }
}

/// The instructions a statement lowers to.
pub open spec fn gen_stmt(s: RStmt) -> Seq<Op> {
    match s {
        RStmt::Let { slot, init, .. } => gen_expr(init) + seq![Op::Store { slot }],
        RStmt::Expr { expr, .. } => gen_expr(expr) + seq![Op::Pop],
    }
}

/// The instructions of the statements from `i` on.
pub open spec fn gen_prog(ss: Seq<RStmt>, i: int) -> Seq<Op>
    decreases ss.len() - i,
{
    if !(0 <= i < ss.len()) {
        Seq::empty()
    } else {
        gen_stmt(ss[i]) + gen_prog(ss, i + 1)
    }
}

/// Emits the code of one expression.
fn emit_expr(e: &RExpr, out: &mut Vec<Op>)
    ensures
        final(out)@ == old(out)@ + gen_expr(*e),
    decreases *e,
{
    match e {
        RExpr::Num { val, .. } => {
            out.push(Op::PushNum { val: *val });
            assert(out@ =~= old(out)@ + gen_expr(*e));
        },
        RExpr::BoolLit { val, .. } => {
            out.push(Op::PushBool { val: *val });
            assert(out@ =~= old(out)@ + gen_expr(*e));
        },
        RExpr::Var { slot, line } => {
            out.push(Op::Load { slot: *slot, line: *line });
            assert(out@ =~= old(out)@ + gen_expr(*e));
        },
        RExpr::Neg { e: inner, line } => {
            emit_expr(inner, out);
            out.push(Op::Neg { line: *line });
            assert(out@ =~= old(out)@ + gen_expr(*e));
        },
        RExpr::Bin { op, lhs, rhs, line } => {
            emit_expr(lhs, out);
            emit_expr(rhs, out);
            let opc = match op {
                BinOp::Add => Op::Add { line: *line },
                BinOp::Sub => Op::Sub { line: *line },
                BinOp::Mul => Op::Mul { line: *line },
                BinOp::Div => Op::Div { line: *line },
            };
            out.push(opc);
            assert(out@ =~= old(out)@ + gen_expr(*e));
        },
        RExpr::Call { slot, arg, line } => {
            out.push(Op::Load { slot: *slot, line: *line });
            match arg {
                None => {
                    out.push(Op::CallV { has_arg: false, line: *line });
                },
                Some(a) => {
                    emit_expr(a, out);
                    out.push(Op::CallV { has_arg: true, line: *line });
                },
            }
            assert(out@ =~= old(out)@ + gen_expr(*e));
        },
    }
}

/// Emits the code of one statement.
fn emit_stmt(s: &RStmt, out: &mut Vec<Op>)
    ensures
        final(out)@ == old(out)@ + gen_stmt(*s),
{
    match s {
        RStmt::Let { slot, ref init, .. } => {
            emit_expr(init, out);
            out.push(Op::Store { slot: *slot });
            assert(out@ =~= old(out)@ + gen_stmt(*s));
        },
        RStmt::Expr { ref expr, .. } => {
            emit_expr(expr, out);
            out.push(Op::Pop);
            assert(out@ =~= old(out)@ + gen_stmt(*s));
        },
    }
}

/// Lowers a resolved program into a chunk.
pub fn codegen_program(prog: &Vec<RStmt>) -> (c: Chunk)
    ensures
        c.ops@ == gen_prog(prog@, 0),
{
    let mut out: Vec<Op> = Vec::new();
    let mut i: usize = 0;
    while i < prog.len()
        invariant
            i <= prog.len(),
            gen_prog(prog@, 0) == out@ + gen_prog(prog@, i as int),
        decreases prog.len() - i,
    {
        let ghost out_pre = out@;
        emit_stmt(&prog[i], &mut out);
        proof {
            let rest = gen_prog(prog@, i + 1);
            assert(gen_prog(prog@, i as int) == gen_stmt(prog@[i as int]) + rest);
            assert(out_pre + (gen_stmt(prog@[i as int]) + rest) =~= out@ + rest);
        }
        i = i + 1;
    }
    proof {
        assert(gen_prog(prog@, i as int) =~= Seq::<Op>::empty());
        assert(out@ + Seq::<Op>::empty() =~= out@);
    }
    Chunk { ops: out }
}

} // verus!
