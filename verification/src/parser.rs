//! Recursive-descent parsing with an exact specification.
//!
//! The grammar:
//!
//! ```text
//! program := { stmt }
//! stmt    := "let" IDENT "=" expr ";" | expr ";"
//! expr    := term { ("+" | "-") term }
//! term    := factor { ("*" | "/") factor }
//! factor  := NUM | "true" | "false" | "-" factor
//!          | IDENT | IDENT "(" [ expr ] ")" | "(" expr ")"
//! ```
//!
//! `sp_program` states which statement list a token sequence denotes, or on
//! which line parsing fails; `parse_program` is proved to return exactly that.
//! The spec recursions over a chain (`1 + 2 + 3`) are guarded on the position
//! advancing, which the executable parser's postconditions show always holds.

use vstd::prelude::*;

use crate::ast::{BinOp, Expr, Stmt, Tok};

verus! {

/// The outcome of parsing one expression: the node and the position after
/// it, or the line of the offending token.
pub enum PRes {
    Parsed { e: Expr, j: int },
    Fail { line: u64 },
}

/// The outcome of parsing one statement.
pub enum SRes {
    Parsed { s: Stmt, j: int },
    Fail { line: u64 },
}

/// The outcome of parsing a whole program.
pub enum POut {
    Prog(Seq<Stmt>),
    Fail { line: u64 },
}

/// The line to report for a failure at position `i`: the line of the token
/// there, or of the last token when the input ended early.
pub open spec fn line_at(t: Seq<Tok>, i: int) -> u64 {
    if 0 <= i < t.len() {
        t[i].line_of()
    } else if t.len() > 0 {
        t[t.len() - 1].line_of()
    } else {
        1
    }
}

pub open spec fn sp_factor(t: Seq<Tok>, i: int) -> PRes
    decreases t.len() - i, 0int,
{
    if !(0 <= i < t.len()) {
        PRes::Fail { line: line_at(t, i) }
    } else {
        match t[i] {
            Tok::Num { val, line } => PRes::Parsed { e: Expr::Num { val, line }, j: i + 1 },
            Tok::KwTrue { line } => PRes::Parsed { e: Expr::BoolLit { val: true, line }, j: i + 1 },
            Tok::KwFalse { line } => PRes::Parsed { e: Expr::BoolLit { val: false, line }, j: i + 1 },
            Tok::Minus { line } => match sp_factor(t, i + 1) {
                PRes::Parsed { e, j } => PRes::Parsed {
                    e: Expr::Neg { e: Box::new(e), line },
                    j,
                },
                PRes::Fail { line: l } => PRes::Fail { line: l },
            },
            Tok::Ident { lo, len, line } => {
                if i + 1 < t.len() && t[i + 1] is LParen {
                    if i + 2 < t.len() && t[i + 2] is RParen {
                        PRes::Parsed { e: Expr::Call { lo, len, arg: None, line }, j: i + 3 }
                    } else {
                        match sp_expr(t, i + 2) {
                            PRes::Parsed { e, j } => {
                                if j < t.len() && t[j] is RParen {
                                    PRes::Parsed {
                                        e: Expr::Call { lo, len, arg: Some(Box::new(e)), line },
                                        j: j + 1,
                                    }
                                } else {
                                    PRes::Fail { line: line_at(t, j) }
                                }
                            },
                            PRes::Fail { line: l } => PRes::Fail { line: l },
                        }
                    }
                } else {
                    PRes::Parsed { e: Expr::Var { lo, len, line }, j: i + 1 }
                }
            },
            Tok::LParen { line } => match sp_expr(t, i + 1) {
                PRes::Parsed { e, j } => {
                    if j < t.len() && t[j] is RParen {
                        PRes::Parsed { e, j: j + 1 }
                    } else {
                        PRes::Fail { line: line_at(t, j) }
                    }
                },
                PRes::Fail { line: l } => PRes::Fail { line: l },
            },
            _ => PRes::Fail { line: line_at(t, i) },
        }
    }
}

pub open spec fn sp_term_rest(t: Seq<Tok>, acc: Expr, i: int) -> PRes
    decreases t.len() - i, 1int,
{
    if 0 <= i < t.len() && (t[i] is Star || t[i] is Slash) {
        let op = if t[i] is Star {
            BinOp::Mul
        } else {
            BinOp::Div
        };
        match sp_factor(t, i + 1) {
            PRes::Parsed { e, j } => {
                if i < j <= t.len() {
                    sp_term_rest(
                        t,
                        Expr::Bin {
                            op,
                            lhs: Box::new(acc),
                            rhs: Box::new(e),
                            line: t[i].line_of(),
                        },
                        j,
                    )
                } else {
                    PRes::Fail { line: line_at(t, j) }
                }
            },
            PRes::Fail { line: l } => PRes::Fail { line: l },
        }
    } else {
        PRes::Parsed { e: acc, j: i }
    }
}

pub open spec fn sp_term(t: Seq<Tok>, i: int) -> PRes
    decreases t.len() - i, 2int,
{
    match sp_factor(t, i) {
        PRes::Parsed { e, j } => {
            if i <= j <= t.len() {
                sp_term_rest(t, e, j)
            } else {
                PRes::Fail { line: line_at(t, j) }
            }
        },
        PRes::Fail { line: l } => PRes::Fail { line: l },
    }
}

pub open spec fn sp_expr_rest(t: Seq<Tok>, acc: Expr, i: int) -> PRes
    decreases t.len() - i, 3int,
{
    if 0 <= i < t.len() && (t[i] is Plus || t[i] is Minus) {
        let op = if t[i] is Plus {
            BinOp::Add
        } else {
            BinOp::Sub
        };
        match sp_term(t, i + 1) {
            PRes::Parsed { e, j } => {
                if i < j <= t.len() {
                    sp_expr_rest(
                        t,
                        Expr::Bin {
                            op,
                            lhs: Box::new(acc),
                            rhs: Box::new(e),
                            line: t[i].line_of(),
                        },
                        j,
                    )
                } else {
                    PRes::Fail { line: line_at(t, j) }
                }
            },
            PRes::Fail { line: l } => PRes::Fail { line: l },
        }
    } else {
        PRes::Parsed { e: acc, j: i }
    }
}

pub open spec fn sp_expr(t: Seq<Tok>, i: int) -> PRes
    decreases t.len() - i, 4int,
{
    match sp_term(t, i) {
        PRes::Parsed { e, j } => {
            if i <= j <= t.len() {
                sp_expr_rest(t, e, j)
            } else {
                PRes::Fail { line: line_at(t, j) }
            }
        },
        PRes::Fail { line: l } => PRes::Fail { line: l },
    }
}

pub open spec fn sp_stmt(t: Seq<Tok>, i: int) -> SRes
    decreases t.len() - i, 5int,
{
    if 0 <= i < t.len() && t[i] is KwLet {
        if i + 1 < t.len() && t[i + 1] is Ident {
            let (lo, len) = match t[i + 1] {
                Tok::Ident { lo, len, .. } => (lo, len),
                _ => (0usize, 0usize),
            };
            if i + 2 < t.len() && t[i + 2] is Assign {
                match sp_expr(t, i + 3) {
                    PRes::Parsed { e, j } => {
                        if j < t.len() && t[j] is Semi {
                            SRes::Parsed {
                                s: Stmt::Let { lo, len, init: e, line: t[i].line_of() },
                                j: j + 1,
                            }
                        } else {
                            SRes::Fail { line: line_at(t, j) }
                        }
                    },
                    PRes::Fail { line: l } => SRes::Fail { line: l },
                }
            } else {
                SRes::Fail { line: line_at(t, i + 2) }
            }
        } else {
            SRes::Fail { line: line_at(t, i + 1) }
        }
    } else {
        match sp_expr(t, i) {
            PRes::Parsed { e, j } => {
                if j < t.len() && t[j] is Semi {
                    SRes::Parsed { s: Stmt::Expr { expr: e, line: line_at(t, i) }, j: j + 1 }
                } else {
                    SRes::Fail { line: line_at(t, j) }
                }
            },
            PRes::Fail { line: l } => SRes::Fail { line: l },
        }
    }
}

pub open spec fn sp_program(t: Seq<Tok>, i: int) -> POut
    decreases t.len() - i, 6int,
{
    if !(0 <= i < t.len()) {
        POut::Prog(Seq::empty())
    } else {
        match sp_stmt(t, i) {
            SRes::Parsed { s, j } => {
                if i < j <= t.len() {
                    match sp_program(t, j) {
                        POut::Prog(rest) => POut::Prog(seq![s] + rest),
                        POut::Fail { line } => POut::Fail { line },
                    }
                } else {
                    POut::Fail { line: line_at(t, j) }
                }
            },
            SRes::Fail { line } => POut::Fail { line },
        }
    }
}

/// The failure line for position `i`, as executable code.
fn line_at_exec(t: &Vec<Tok>, i: usize) -> (l: u64)
    ensures
        l == line_at(t@, i as int),
{
    if i < t.len() {
        t[i].line()
    } else if t.len() > 0 {
        t[t.len() - 1].line()
    } else {
        1
    }
}

fn parse_factor(t: &Vec<Tok>, i: usize) -> (r: Result<(Expr, usize), u64>)
    requires
        i <= t.len(),
    ensures
        r matches Ok(p) ==> sp_factor(t@, i as int) == (PRes::Parsed { e: p.0, j: p.1 as int }) && i
            < p.1 <= t.len(),
        r matches Err(l) ==> sp_factor(t@, i as int) == (PRes::Fail { line: l }),
    decreases t.len() - i, 0int,
{
    if i >= t.len() {
        return Err(line_at_exec(t, i));
    }
    match t[i] {
        Tok::Num { val, line } => Ok((Expr::Num { val, line }, i + 1)),
        Tok::KwTrue { line } => Ok((Expr::BoolLit { val: true, line }, i + 1)),
        Tok::KwFalse { line } => Ok((Expr::BoolLit { val: false, line }, i + 1)),
        Tok::Minus { line } => {
            let (e, j) = parse_factor(t, i + 1)?;
            Ok((Expr::Neg { e: Box::new(e), line }, j))
        },
        Tok::Ident { lo, len, line } => {
            if i + 1 < t.len() && matches!(t[i + 1], Tok::LParen { .. }) {
                if i + 2 < t.len() && matches!(t[i + 2], Tok::RParen { .. }) {
                    Ok((Expr::Call { lo, len, arg: None, line }, i + 3))
                } else {
                    let (e, j) = parse_expr(t, i + 2)?;
                    if j < t.len() && matches!(t[j], Tok::RParen { .. }) {
                        Ok((Expr::Call { lo, len, arg: Some(Box::new(e)), line }, j + 1))
                    } else {
                        Err(line_at_exec(t, j))
                    }
                }
            } else {
                Ok((Expr::Var { lo, len, line }, i + 1))
            }
        },
        Tok::LParen { line: _ } => {
            let (e, j) = parse_expr(t, i + 1)?;
            if j < t.len() && matches!(t[j], Tok::RParen { .. }) {
                Ok((e, j + 1))
            } else {
                Err(line_at_exec(t, j))
            }
        },
        _ => Err(line_at_exec(t, i)),
    }
}

fn parse_term_rest(t: &Vec<Tok>, acc: Expr, i: usize) -> (r: Result<(Expr, usize), u64>)
    requires
        i <= t.len(),
    ensures
        r matches Ok(p) ==> sp_term_rest(t@, acc, i as int) == (PRes::Parsed { e: p.0, j: p.1 as int })
            && i <= p.1 <= t.len(),
        r matches Err(l) ==> sp_term_rest(t@, acc, i as int) == (PRes::Fail { line: l }),
    decreases t.len() - i, 1int,
{
    if i < t.len() && (matches!(t[i], Tok::Star { .. }) || matches!(t[i], Tok::Slash { .. })) {
        let op = if matches!(t[i], Tok::Star { .. }) {
            BinOp::Mul
        } else {
            BinOp::Div
        };
        let line = t[i].line();
        let (e, j) = parse_factor(t, i + 1)?;
        parse_term_rest(t, Expr::Bin { op, lhs: Box::new(acc), rhs: Box::new(e), line }, j)
    } else {
        Ok((acc, i))
    }
}

fn parse_term(t: &Vec<Tok>, i: usize) -> (r: Result<(Expr, usize), u64>)
    requires
        i <= t.len(),
    ensures
        r matches Ok(p) ==> sp_term(t@, i as int) == (PRes::Parsed { e: p.0, j: p.1 as int }) && i < p.1
            <= t.len(),
        r matches Err(l) ==> sp_term(t@, i as int) == (PRes::Fail { line: l }),
    decreases t.len() - i, 2int,
{
    let (e, j) = parse_factor(t, i)?;
    parse_term_rest(t, e, j)
}

fn parse_expr_rest(t: &Vec<Tok>, acc: Expr, i: usize) -> (r: Result<(Expr, usize), u64>)
    requires
        i <= t.len(),
    ensures
        r matches Ok(p) ==> sp_expr_rest(t@, acc, i as int) == (PRes::Parsed { e: p.0, j: p.1 as int })
            && i <= p.1 <= t.len(),
        r matches Err(l) ==> sp_expr_rest(t@, acc, i as int) == (PRes::Fail { line: l }),
    decreases t.len() - i, 3int,
{
    if i < t.len() && (matches!(t[i], Tok::Plus { .. }) || matches!(t[i], Tok::Minus { .. })) {
        let op = if matches!(t[i], Tok::Plus { .. }) {
            BinOp::Add
        } else {
            BinOp::Sub
        };
        let line = t[i].line();
        let (e, j) = parse_term(t, i + 1)?;
        parse_expr_rest(t, Expr::Bin { op, lhs: Box::new(acc), rhs: Box::new(e), line }, j)
    } else {
        Ok((acc, i))
    }
}

fn parse_expr(t: &Vec<Tok>, i: usize) -> (r: Result<(Expr, usize), u64>)
    requires
        i <= t.len(),
    ensures
        r matches Ok(p) ==> sp_expr(t@, i as int) == (PRes::Parsed { e: p.0, j: p.1 as int }) && i < p.1
            <= t.len(),
        r matches Err(l) ==> sp_expr(t@, i as int) == (PRes::Fail { line: l }),
    decreases t.len() - i, 4int,
{
    let (e, j) = parse_term(t, i)?;
    parse_expr_rest(t, e, j)
}

fn parse_stmt(t: &Vec<Tok>, i: usize) -> (r: Result<(Stmt, usize), u64>)
    requires
        i <= t.len(),
    ensures
        r matches Ok(p) ==> sp_stmt(t@, i as int) == (SRes::Parsed { s: p.0, j: p.1 as int }) && i < p.1
            <= t.len(),
        r matches Err(l) ==> sp_stmt(t@, i as int) == (SRes::Fail { line: l }),
    decreases t.len() - i, 5int,
{
    if i < t.len() && matches!(t[i], Tok::KwLet { .. }) {
        let kw_line = t[i].line();
        if i + 1 < t.len() && matches!(t[i + 1], Tok::Ident { .. }) {
            let (lo, len) = match t[i + 1] {
                Tok::Ident { lo, len, .. } => (lo, len),
                _ => (0, 0),
            };
            if i + 2 < t.len() && matches!(t[i + 2], Tok::Assign { .. }) {
                let (e, j) = parse_expr(t, i + 3)?;
                if j < t.len() && matches!(t[j], Tok::Semi { .. }) {
                    Ok((Stmt::Let { lo, len, init: e, line: kw_line }, j + 1))
                } else {
                    Err(line_at_exec(t, j))
                }
            } else {
                Err(line_at_exec(t, i + 2))
            }
        } else {
            Err(line_at_exec(t, i + 1))
        }
    } else {
        let start_line = line_at_exec(t, i);
        let (e, j) = parse_expr(t, i)?;
        if j < t.len() && matches!(t[j], Tok::Semi { .. }) {
            Ok((Stmt::Expr { expr: e, line: start_line }, j + 1))
        } else {
            Err(line_at_exec(t, j))
        }
    }
}

fn parse_from(t: &Vec<Tok>, i: usize, out: &mut Vec<Stmt>) -> (r: Result<(), u64>)
    requires
        i <= t.len(),
    ensures
        r matches Ok(()) ==> sp_program(t@, i as int) matches POut::Prog(ss) && final(out)@ == old(
            out,
        )@ + ss,
        r matches Err(l) ==> sp_program(t@, i as int) == (POut::Fail { line: l }),
    decreases t.len() - i,
{
    if i >= t.len() {
        assert(final(out)@ =~= old(out)@ + Seq::<Stmt>::empty());
        return Ok(());
    }
    match parse_stmt(t, i) {
        Err(l) => Err(l),
        Ok((s, j)) => {
            let ghost sv = s;
            out.push(s);
            match parse_from(t, j, out) {
                Ok(()) => {
                    proof {
                        let rest = choose|ss: Seq<Stmt>|
                            sp_program(t@, j as int) == POut::Prog(ss);
                        assert(out@ =~= old(out)@ + (seq![sv] + rest));
                    }
                    Ok(())
                },
                Err(l) => Err(l),
            }
        },
    }
}

/// Parses a whole token sequence into a statement list. On failure, returns
/// the line of the offending token.
pub fn parse_program(t: &Vec<Tok>) -> (r: Result<Vec<Stmt>, u64>)
    ensures
        r matches Ok(prog) ==> sp_program(t@, 0) == POut::Prog(prog@),
        r matches Err(l) ==> sp_program(t@, 0) == (POut::Fail { line: l }),
{
    let mut out: Vec<Stmt> = Vec::new();
    match parse_from(t, 0, &mut out) {
        Ok(()) => {
            proof {
                let ss = choose|ss: Seq<Stmt>| sp_program(t@, 0) == POut::Prog(ss);
                assert(out@ =~= ss);
            }
            Ok(out)
        },
        Err(l) => Err(l),
    }
}

} // verus!
