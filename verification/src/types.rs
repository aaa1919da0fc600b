//! Static type checking over resolved programs.
//!
//! Each slot carries a type in an environment parallel to the symbol table.
//! A slot that has never been assigned is `Unknown` and is accepted wherever
//! a value is needed (its misuse is caught at run time instead). Errors are
//! collected per statement; a failing statement leaves the environment as it
//! was, and checking continues with the next statement.

use vstd::prelude::*;

use crate::resolve::{RExpr, RStmt};

verus! {

/// The parameter kind of a builtin signature.
#[derive(Clone, Copy, PartialEq, Eq, Structural, Debug)]
pub enum ParamK {
    /// Accepts any value.
    AnyP,
    /// Requires a number.
    NumP,
}

/// The result kind of a builtin signature.
#[derive(Clone, Copy, PartialEq, Eq, Structural, Debug)]
pub enum RetK {
    RNum,
    RBool,
    RStr,
}

/// The static type of a slot or an expression.
#[derive(Clone, Copy, PartialEq, Eq, Structural, Debug)]
pub enum Ty {
    Num,
    Bool,
    Str,
    /// A slot that has not been assigned yet.
    Unknown,
    /// A native function taking zero arguments or one argument.
    FnTy { param: Option<ParamK>, ret: RetK },
}

/// What a type error complains about.
#[derive(Clone, Copy, PartialEq, Eq, Structural, Debug)]
pub enum TyErrKind {
    /// An arithmetic operand or a number-typed argument is not a number.
    ExpectNum,
    /// The callee of a call is known not to be a function.
    NotCallable,
    /// A call passes the wrong number of arguments.
    ArityMismatch,
}

/// One type error with the line it was found on.
#[derive(Clone, Copy, PartialEq, Eq, Structural, Debug)]
pub struct TyErrAt {
    pub kind: TyErrKind,
    pub line: u64,
}

/// The outcome of typing one expression.
pub enum TRes {
    Typed(Ty),
    Bad(TyErrAt),
}

/// A type accepted where a number is needed.
pub open spec fn num_ok(t: Ty) -> bool {
    t == Ty::Num || t == Ty::Unknown
}

pub open spec fn ret_ty(r: RetK) -> Ty {
    match r {
        RetK::RNum => Ty::Num,
        RetK::RBool => Ty::Bool,
        RetK::RStr => Ty::Str,
    }
}

/// The type of the value held by `slot`.
pub open spec fn slot_ty(env: Seq<Ty>, slot: usize) -> Ty {
    if (slot as int) < env.len() {
        env[slot as int]
    } else {
        Ty::Unknown
    }
}

/// Types one expression.
pub open spec fn ty_expr(env: Seq<Ty>, e: RExpr) -> TRes
    decreases e,
{
    match e {
        RExpr::Num { .. } => TRes::Typed(Ty::Num),
        RExpr::BoolLit { .. } => TRes::Typed(Ty::Bool),
        RExpr::Var { slot, .. } => TRes::Typed(slot_ty(env, slot)),
        RExpr::Neg { e: inner, line } => match ty_expr(env, *inner) {
            TRes::Typed(t) => if num_ok(t) {
                TRes::Typed(Ty::Num)
            } else {
                TRes::Bad(TyErrAt { kind: TyErrKind::ExpectNum, line })
            },
            bad => bad,
        },
        RExpr::Bin { op, lhs, rhs, line } => match ty_expr(env, *lhs) {
            TRes::Typed(t1) => if !num_ok(t1) {
                TRes::Bad(TyErrAt { kind: TyErrKind::ExpectNum, line })
            } else {
                match ty_expr(env, *rhs) {
                    TRes::Typed(t2) => if !num_ok(t2) {
                        TRes::Bad(TyErrAt { kind: TyErrKind::ExpectNum, line })
                    } else {
                        TRes::Typed(Ty::Num)
                    },
                    bad => bad,
                }
            },
            bad => bad,
        },
        RExpr::Call { slot, arg, line } => match slot_ty(env, slot) {
            Ty::FnTy { param, ret } => match arg {
                None => if param is None {
                    TRes::Typed(ret_ty(ret))
                } else {
                    TRes::Bad(TyErrAt { kind: TyErrKind::ArityMismatch, line })
                },
                Some(a) => match param {
                    None => TRes::Bad(TyErrAt { kind: TyErrKind::ArityMismatch, line }),
                    Some(pk) => match ty_expr(env, *a) {
                        TRes::Typed(at) => if pk == ParamK::NumP && !num_ok(at) {
                            TRes::Bad(TyErrAt { kind: TyErrKind::ExpectNum, line })
                        } else {
                            TRes::Typed(ret_ty(ret))
                        },
                        bad => bad,
                    },
                },
            },
            Ty::Unknown => match arg {
                None => TRes::Typed(Ty::Unknown),
                Some(a) => match ty_expr(env, *a) {
                    TRes::Typed(_) => TRes::Typed(Ty::Unknown),
                    bad => bad,
                },
            },
            _ => TRes::Bad(TyErrAt { kind: TyErrKind::NotCallable, line }),
        },
    }
}

/// Types one statement: an error, or the updated environment.
pub open spec fn ty_stmt(env: Seq<Ty>, s: RStmt) -> (Option<TyErrAt>, Seq<Ty>) {
    match s {
        RStmt::Let { slot, init, .. } => match ty_expr(env, init) {
            TRes::Typed(t) => if (slot as int) < env.len() {
                (None, env.update(slot as int, t))
            } else {
                (None, env)
            },
            TRes::Bad(err) => (Some(err), env),
        },
        RStmt::Expr { expr, .. } => match ty_expr(env, expr) {
            TRes::Typed(_) => (None, env),
            TRes::Bad(err) => (Some(err), env),
        },
    }
}

/// Types the statements from `i` on, collecting the errors in order.
pub open spec fn ty_prog(env: Seq<Ty>, ss: Seq<RStmt>, i: int) -> (Seq<TyErrAt>, Seq<Ty>)
    decreases ss.len() - i,
{
    if !(0 <= i < ss.len()) {
        (Seq::empty(), env)
    } else {
        let (err, env1) = ty_stmt(env, ss[i]);
        let (rest, env2) = ty_prog(env1, ss, i + 1);
        match err {
            None => (rest, env2),
            Some(e) => (seq![e] + rest, env2),
        }
    }
}

/// The length of the environment never changes while checking.
pub proof fn lemma_ty_prog_len(env: Seq<Ty>, ss: Seq<RStmt>, i: int)
    ensures
        ty_prog(env, ss, i).1.len() == env.len(),
    decreases ss.len() - i,
{
    if 0 <= i < ss.len() {
        let (err, env1) = ty_stmt(env, ss[i]);
        lemma_ty_prog_len(env1, ss, i + 1);
    }
}

/// Copies a type environment.
pub fn copy_types(v: &Vec<Ty>) -> (r: Vec<Ty>)
    ensures
        r@ == v@,
{
    let mut r: Vec<Ty> = Vec::new();
    let mut i: usize = 0;
    while i < v.len()
        invariant
            i <= v.len(),
            r@ =~= v@.take(i as int),
        decreases v.len() - i,
    {
        r.push(v[i]);
        proof {
            assert(r@ =~= v@.take(i + 1));
        }
        i = i + 1;
    }
    proof {
        assert(v@.take(i as int) =~= v@);
    }
    r
}

/// Checks one expression.
fn check_expr(env: &Vec<Ty>, e: &RExpr) -> (r: Result<Ty, TyErrAt>)
    ensures
        r matches Ok(t) ==> ty_expr(env@, *e) == TRes::Typed(t),
        r matches Err(err) ==> ty_expr(env@, *e) == TRes::Bad(err),
    decreases *e,
{
    match e {
        RExpr::Num { .. } => Ok(Ty::Num),
        RExpr::BoolLit { .. } => Ok(Ty::Bool),
        RExpr::Var { slot, .. } => {
            if *slot < env.len() {
                Ok(env[*slot])
            } else {
                Ok(Ty::Unknown)
            }
        },
        RExpr::Neg { e: inner, line } => {
            let t = check_expr(env, inner)?;
            if t == Ty::Num || t == Ty::Unknown {
                Ok(Ty::Num)
            } else {
                Err(TyErrAt { kind: TyErrKind::ExpectNum, line: *line })
            }
        },
        RExpr::Bin { op: _, lhs, rhs, line } => {
            let t1 = check_expr(env, lhs)?;
            if !(t1 == Ty::Num || t1 == Ty::Unknown) {
                return Err(TyErrAt { kind: TyErrKind::ExpectNum, line: *line });
            }
            let t2 = check_expr(env, rhs)?;
            if !(t2 == Ty::Num || t2 == Ty::Unknown) {
                return Err(TyErrAt { kind: TyErrKind::ExpectNum, line: *line });
            }
            Ok(Ty::Num)
        },
        RExpr::Call { slot, arg, line } => {
            let ct = if *slot < env.len() {
                env[*slot]
            } else {
                Ty::Unknown
            };
            match ct {
                Ty::FnTy { param, ret } => match arg {
                    None => {
                        if matches!(param, None) {
                            Ok(match ret {
                                RetK::RNum => Ty::Num,
                                RetK::RBool => Ty::Bool,
                                RetK::RStr => Ty::Str,
                            })
                        } else {
                            Err(TyErrAt { kind: TyErrKind::ArityMismatch, line: *line })
                        }
                    },
                    Some(a) => match param {
                        None => Err(TyErrAt { kind: TyErrKind::ArityMismatch, line: *line }),
                        Some(pk) => {
                            let at = check_expr(env, a)?;
                            if pk == ParamK::NumP && !(at == Ty::Num || at == Ty::Unknown) {
                                Err(TyErrAt { kind: TyErrKind::ExpectNum, line: *line })
                            } else {
                                Ok(match ret {
                                    RetK::RNum => Ty::Num,
                                    RetK::RBool => Ty::Bool,
                                    RetK::RStr => Ty::Str,
                                })
                            }
                        },
                    },
                },
                Ty::Unknown => match arg {
                    None => Ok(Ty::Unknown),
                    Some(a) => {
                        let _at = check_expr(env, a)?;
                        Ok(Ty::Unknown)
                    },
                },
                _ => Err(TyErrAt { kind: TyErrKind::NotCallable, line: *line }),
            }
        },
    }
}

/// Checks a whole program, updating the environment in place and returning
/// the type errors in statement order.
pub fn check_program(env: &mut Vec<Ty>, prog: &Vec<RStmt>) -> (errs: Vec<TyErrAt>)
    ensures
        (errs@, final(env)@) == ty_prog(old(env)@, prog@, 0),
        final(env)@.len() == old(env)@.len(),
{
    let mut errs: Vec<TyErrAt> = Vec::new();
    let mut i: usize = 0;
    proof {
        lemma_ty_prog_len(env@, prog@, 0);
    }
    while i < prog.len()
        invariant
            i <= prog.len(),
            env@.len() == old(env)@.len(),
            ty_prog(old(env)@, prog@, 0).0 == errs@ + ty_prog(env@, prog@, i as int).0,
            ty_prog(old(env)@, prog@, 0).1 == ty_prog(env@, prog@, i as int).1,
        decreases prog.len() - i,
    {
        let ghost env_pre = env@;
        let ghost errs_pre = errs@;
        match prog[i] {
            RStmt::Let { slot, ref init, .. } => {
                match check_expr(env, init) {
                    Ok(t) => {
                        if slot < env.len() {
                            env[slot] = t;
                        }
                    },
                    Err(err) => {
                        errs.push(err);
                    },
                }
            },
            RStmt::Expr { ref expr, .. } => {
                match check_expr(env, expr) {
                    Ok(_) => {},
                    Err(err) => {
                        errs.push(err);
                    },
                }
            },
        }
        proof {
            let (err0, env1) = ty_stmt(env_pre, prog@[i as int]);
            let rest = ty_prog(env@, prog@, i + 1).0;
            match err0 {
                None => {
                    assert(ty_prog(env_pre, prog@, i as int).0 == rest);
                    assert(errs_pre + rest =~= errs@ + rest);
                },
                Some(e0) => {
                    assert(ty_prog(env_pre, prog@, i as int).0 == seq![e0] + rest);
                    assert(errs_pre + (seq![e0] + rest) =~= errs@ + rest);
                },
            }
        }
        i = i + 1;
    }
    proof {
        assert(ty_prog(env@, prog@, i as int).0 =~= Seq::<TyErrAt>::empty());
        assert(errs@ + Seq::<TyErrAt>::empty() =~= errs@);
    }
    errs
}

} // verus!
