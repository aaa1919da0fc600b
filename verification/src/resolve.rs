//! Symbol resolution: turns names into global slot indices.
//!
//! The symbol table maps a slot index (its position) to a name. Resolution
//! only ever appends to the table — a name that is already present keeps its
//! slot forever — which is what keeps slot numbering stable between the
//! builtin bootstrap and every later compilation in the same session.

use vstd::prelude::*;

use crate::ast::{BinOp, Expr, Stmt};

verus! {

/// A resolved expression: names replaced by slot indices.
pub enum RExpr {
    Num { val: i64, line: u64 },
    BoolLit { val: bool, line: u64 },
    Var { slot: usize, line: u64 },
    Call { slot: usize, arg: Option<Box<RExpr>>, line: u64 },
    Bin { op: BinOp, lhs: Box<RExpr>, rhs: Box<RExpr>, line: u64 },
    Neg { e: Box<RExpr>, line: u64 },
}

/// A resolved statement.
pub enum RStmt {
    Let { slot: usize, init: RExpr, line: u64 },
    Expr { expr: RExpr, line: u64 },
}

/// The view of an executable symbol table as a sequence of names.
pub open spec fn names_view(t: Seq<Vec<char>>) -> Seq<Seq<char>> {
    t.map_values(|v: Vec<char>| v@)
}

/// The characters a span denotes, clamped to the source bounds. Spans made
/// by the lexer always lie within bounds, so the clamp is only there to make
/// the definition total.
pub open spec fn name_at(src: Seq<char>, lo: usize, len: usize) -> Seq<char> {
    let lo2 = if lo as int <= src.len() {
        lo as int
    } else {
        src.len() as int
    };
    let hi = if lo + len <= src.len() {
        lo + len
    } else {
        src.len() as int
    };
    if lo2 <= hi {
        src.subrange(lo2, hi)
    } else {
        Seq::empty()
    }
}

/// The first slot holding `name` at or after `i`, or `-1`.
pub open spec fn find_from(names: Seq<Seq<char>>, name: Seq<char>, i: int) -> int
    decreases names.len() - i,
{
    if !(0 <= i < names.len()) {
        -1
    } else if names[i] == name {
        i
    } else {
        find_from(names, name, i + 1)
    }
}

/// Looking a name up, appending it when absent: the resulting slot and table.
pub open spec fn sp_lookup(names: Seq<Seq<char>>, name: Seq<char>) -> (usize, Seq<Seq<char>>) {
    let f = find_from(names, name, 0);
    if f >= 0 {
        (f as usize, names)
    } else {
        (names.len() as usize, names.push(name))
    }
}

/// Resolving an expression: the resolved node and the extended table.
pub open spec fn r_expr(src: Seq<char>, names: Seq<Seq<char>>, e: Expr) -> (RExpr, Seq<Seq<char>>)
    decreases e,
{
    match e {
        Expr::Num { val, line } => (RExpr::Num { val, line }, names),
        Expr::BoolLit { val, line } => (RExpr::BoolLit { val, line }, names),
        Expr::Var { lo, len, line } => {
            let (slot, names2) = sp_lookup(names, name_at(src, lo, len));
            (RExpr::Var { slot, line }, names2)
        },
        Expr::Call { lo, len, arg, line } => {
            let (slot, names1) = sp_lookup(names, name_at(src, lo, len));
            match arg {
                None => (RExpr::Call { slot, arg: None, line }, names1),
                Some(a) => {
                    let (ra, names2) = r_expr(src, names1, *a);
                    (RExpr::Call { slot, arg: Some(Box::new(ra)), line }, names2)
                },
            }
        },
        Expr::Bin { op, lhs, rhs, line } => {
            let (rl, names1) = r_expr(src, names, *lhs);
            let (rr, names2) = r_expr(src, names1, *rhs);
            (RExpr::Bin { op, lhs: Box::new(rl), rhs: Box::new(rr), line }, names2)
        },
        Expr::Neg { e, line } => {
            let (re, names1) = r_expr(src, names, *e);
            (RExpr::Neg { e: Box::new(re), line }, names1)
        },
    }
}

/// Resolving a statement. The initializer of a `let` is resolved before its
/// name is bound, so `let x = x;` reads the outer (possibly undefined) `x`.
pub open spec fn r_stmt(src: Seq<char>, names: Seq<Seq<char>>, s: Stmt) -> (RStmt, Seq<Seq<char>>) {
    match s {
        Stmt::Let { lo, len, init, line } => {
            let (re, names1) = r_expr(src, names, init);
            let (slot, names2) = sp_lookup(names1, name_at(src, lo, len));
            (RStmt::Let { slot, init: re, line }, names2)
        },
        Stmt::Expr { expr, line } => {
            let (re, names1) = r_expr(src, names, expr);
            (RStmt::Expr { expr: re, line }, names1)
        },
    }
}

/// Resolving the statements from index `i` on.
pub open spec fn r_prog(src: Seq<char>, names: Seq<Seq<char>>, ss: Seq<Stmt>, i: int) -> (
    Seq<RStmt>,
    Seq<Seq<char>>,
)
    decreases ss.len() - i,
{
    if !(0 <= i < ss.len()) {
        (Seq::empty(), names)
    } else {
        let (rs, names1) = r_stmt(src, names, ss[i]);
        let (rest, names2) = r_prog(src, names1, ss, i + 1);
        (seq![rs] + rest, names2)
    }
}

/// `b` extends `a`: `a` is a prefix of `b`. Slot stability is exactly this
/// relation on the symbol table across any compilation.
pub open spec fn extends(a: Seq<Seq<char>>, b: Seq<Seq<char>>) -> bool {
    a.len() <= b.len() && forall|k: int| 0 <= k < a.len() ==> a[k] == b[k]
}

pub proof fn lemma_extends_trans(a: Seq<Seq<char>>, b: Seq<Seq<char>>, c: Seq<Seq<char>>)
    requires
        extends(a, b),
        extends(b, c),
    ensures
        extends(a, c),
{
}

/// Resolving an expression only appends to the symbol table.
pub proof fn lemma_r_expr_extends(src: Seq<char>, names: Seq<Seq<char>>, e: Expr)
    ensures
        extends(names, r_expr(src, names, e).1),
    decreases e,
{
    match e {
        Expr::Num { .. } => {},
        Expr::BoolLit { .. } => {},
        Expr::Var { .. } => {},
        Expr::Call { lo, len, arg, line } => {
            let (slot, names1) = sp_lookup(names, name_at(src, lo, len));
            match arg {
                None => {},
                Some(a) => {
                    lemma_r_expr_extends(src, names1, *a);
                },
            }
        },
        Expr::Bin { op, lhs, rhs, line } => {
            let (rl, names1) = r_expr(src, names, *lhs);
            lemma_r_expr_extends(src, names, *lhs);
            lemma_r_expr_extends(src, names1, *rhs);
        },
        Expr::Neg { e: inner, line } => {
            lemma_r_expr_extends(src, names, *inner);
        },
    }
}

/// Resolving a statement only appends to the symbol table.
pub proof fn lemma_r_stmt_extends(src: Seq<char>, names: Seq<Seq<char>>, s: Stmt)
    ensures
        extends(names, r_stmt(src, names, s).1),
{
    match s {
        Stmt::Let { lo, len, init, line } => {
            lemma_r_expr_extends(src, names, init);
        },
        Stmt::Expr { expr, line } => {
            lemma_r_expr_extends(src, names, expr);
        },
    }
}

/// Resolving a program only appends to the symbol table: every slot that was
/// assigned before keeps its index and its name.
pub proof fn lemma_r_prog_extends(src: Seq<char>, names: Seq<Seq<char>>, ss: Seq<Stmt>, i: int)
    ensures
        extends(names, r_prog(src, names, ss, i).1),
    decreases ss.len() - i,
{
    if 0 <= i < ss.len() {
        let (rs, names1) = r_stmt(src, names, ss[i]);
        lemma_r_stmt_extends(src, names, ss[i]);
        lemma_r_prog_extends(src, names1, ss, i + 1);
    }
}

/// Copies a character vector.
pub fn copy_chars(v: &Vec<char>) -> (r: Vec<char>)
    ensures
        r@ == v@,
{
    let mut r: Vec<char> = Vec::new();
    let mut i: usize = 0;
    while i < v.len()
        invariant
            i <= v.len(),
            r@ == v@.subrange(0, i as int),
        decreases v.len() - i,
    {
        r.push(v[i]);
        proof {
            assert(r@ =~= v@.subrange(0, i + 1));
        }
        i = i + 1;
    }
    proof {
        assert(r@ =~= v@);
    }
    r
}

/// Copies a symbol table.
pub fn copy_names(v: &Vec<Vec<char>>) -> (r: Vec<Vec<char>>)
    ensures
        names_view(r@) == names_view(v@),
{
    let mut r: Vec<Vec<char>> = Vec::new();
    let mut i: usize = 0;
    while i < v.len()
        invariant
            i <= v.len(),
            names_view(r@) =~= names_view(v@).take(i as int),
        decreases v.len() - i,
    {
        let c = copy_chars(&v[i]);
        let ghost cv = c@;
        r.push(c);
        proof {
            assert(names_view(r@) =~= names_view(v@).take(i as int).push(cv));
            assert(names_view(v@).take(i as int).push(names_view(v@)[i as int]) =~= names_view(
                v@,
            ).take(i + 1));
        }
        i = i + 1;
    }
    proof {
        assert(names_view(v@).take(i as int) =~= names_view(v@));
    }
    r
}

/// Copies the span `src[lo..lo + len]` out of the source, clamped to bounds.
fn extract_name(src: &Vec<char>, lo: usize, len: usize) -> (r: Vec<char>)
    ensures
        r@ == name_at(src@, lo, len),
{
    let lo2: usize = if lo <= src.len() {
        lo
    } else {
        src.len()
    };
    let hi: usize = if lo <= src.len() && len <= src.len() - lo {
        lo + len
    } else {
        src.len()
    };
    let mut r: Vec<char> = Vec::new();
    let mut i: usize = lo2;
    while i < hi
        invariant
            lo2 <= i <= hi <= src.len(),
            r@ == src@.subrange(lo2 as int, i as int),
        decreases hi - i,
    {
        r.push(src[i]);
        proof {
            assert(r@ =~= src@.subrange(lo2 as int, i + 1));
        }
        i = i + 1;
    }
    proof {
        assert(r@ =~= name_at(src@, lo, len));
    }
    r
}

/// Whether two character vectors hold the same characters.
fn chars_eq(a: &Vec<char>, b: &Vec<char>) -> (r: bool)
    ensures
        r <==> a@ == b@,
{
    if a.len() != b.len() {
        return false;
    }
    let mut i: usize = 0;
    while i < a.len()
        invariant
            i <= a.len(),
            a.len() == b.len(),
            forall|k: int| 0 <= k < i ==> a@[k] == b@[k],
        decreases a.len() - i,
    {
        if a[i] != b[i] {
            return false;
        }
        i = i + 1;
    }
    proof {
        assert(a@ =~= b@);
    }
    true
}

/// Finds a name's slot, or appends the name to the table; returns its slot.
fn lookup(names: &mut Vec<Vec<char>>, name: Vec<char>) -> (slot: usize)
    ensures
        (slot, names_view(final(names)@)) == sp_lookup(names_view(old(names)@), name@),
{
    let ghost nv = names_view(names@);
    let mut i: usize = 0;
    while i < names.len()
        invariant
            i <= names.len(),
            nv == names_view(names@),
            find_from(nv, name@, 0) == find_from(nv, name@, i as int),
        decreases names.len() - i,
    {
        if chars_eq(&names[i], &name) {
            proof {
                assert(find_from(nv, name@, i as int) == i as int);
            }
            return i;
        }
        proof {
            assert(find_from(nv, name@, i as int) == find_from(nv, name@, i + 1));
        }
        i = i + 1;
    }
    proof {
        assert(find_from(nv, name@, i as int) == -1);
    }
    let ghost namev = name@;
    let slot = names.len();
    names.push(name);
    proof {
        assert(names_view(names@) =~= nv.push(namev));
    }
    slot
}

/// Resolves one expression against (and possibly extending) the table.
fn resolve_expr(src: &Vec<char>, names: &mut Vec<Vec<char>>, e: &Expr) -> (re: RExpr)
    ensures
        (re, names_view(final(names)@)) == r_expr(src@, names_view(old(names)@), *e),
    decreases *e,
{
    match e {
        Expr::Num { val, line } => RExpr::Num { val: *val, line: *line },
        Expr::BoolLit { val, line } => RExpr::BoolLit { val: *val, line: *line },
        Expr::Var { lo, len, line } => {
            let name = extract_name(src, *lo, *len);
            let slot = lookup(names, name);
            RExpr::Var { slot, line: *line }
        },
        Expr::Call { lo, len, arg, line } => {
            let name = extract_name(src, *lo, *len);
            let slot = lookup(names, name);
            match arg {
                None => RExpr::Call { slot, arg: None, line: *line },
                Some(a) => {
                    let ra = resolve_expr(src, names, a);
                    RExpr::Call { slot, arg: Some(Box::new(ra)), line: *line }
                },
            }
        },
        Expr::Bin { op, lhs, rhs, line } => {
            let rl = resolve_expr(src, names, lhs);
            let rr = resolve_expr(src, names, rhs);
            RExpr::Bin { op: *op, lhs: Box::new(rl), rhs: Box::new(rr), line: *line }
        },
        Expr::Neg { e: inner, line } => {
            let re = resolve_expr(src, names, inner);
            RExpr::Neg { e: Box::new(re), line: *line }
        },
    }
}

/// Resolves one statement.
fn resolve_stmt(src: &Vec<char>, names: &mut Vec<Vec<char>>, s: &Stmt) -> (rs: RStmt)
    ensures
        (rs, names_view(final(names)@)) == r_stmt(src@, names_view(old(names)@), *s),
{
    match s {
        Stmt::Let { lo, len, init, line } => {
            let re = resolve_expr(src, names, init);
            let name = extract_name(src, *lo, *len);
            let slot = lookup(names, name);
            RStmt::Let { slot, init: re, line: *line }
        },
        Stmt::Expr { expr, line } => {
            let re = resolve_expr(src, names, expr);
            RStmt::Expr { expr: re, line: *line }
        },
    }
}

/// Resolves a whole program, extending the table in place. The table is only
/// ever appended to: every existing slot keeps its name and its index.
pub fn resolve_program(src: &Vec<char>, names: &mut Vec<Vec<char>>, prog: &Vec<Stmt>) -> (rp: Vec<
    RStmt,
>)
    ensures
        (rp@, names_view(final(names)@)) == r_prog(src@, names_view(old(names)@), prog@, 0),
        extends(names_view(old(names)@), names_view(final(names)@)),
{
    let mut out: Vec<RStmt> = Vec::new();
    let mut i: usize = 0;
    proof {
        lemma_r_prog_extends(src@, names_view(names@), prog@, 0);
    }
    while i < prog.len()
        invariant
            i <= prog.len(),
            r_prog(src@, names_view(old(names)@), prog@, 0).0 == out@ + r_prog(
                src@,
                names_view(names@),
                prog@,
                i as int,
            ).0,
            r_prog(src@, names_view(old(names)@), prog@, 0).1 == r_prog(
                src@,
                names_view(names@),
                prog@,
                i as int,
            ).1,
            extends(names_view(old(names)@), names_view(names@)),
        decreases prog.len() - i,
    {
        let ghost names_pre = names_view(names@);
        let ghost out_pre = out@;
        let rs = resolve_stmt(src, names, &prog[i]);
        let ghost rsv = rs;
        out.push(rs);
        proof {
            lemma_r_stmt_extends(src@, names_pre, prog@[i as int]);
            lemma_extends_trans(names_view(old(names)@), names_pre, names_view(names@));
            let rest = r_prog(src@, names_view(names@), prog@, i + 1).0;
            assert(r_prog(src@, names_pre, prog@, i as int).0 == seq![rsv] + rest);
            assert(out_pre + (seq![rsv] + rest) =~= out@ + rest);
        }
        i = i + 1;
    }
    proof {
        assert(r_prog(src@, names_view(names@), prog@, i as int).0 =~= Seq::<RStmt>::empty());
        assert(out@ + Seq::<RStmt>::empty() =~= out@);
    }
    out
}

} // verus!
