//! Tokens and the abstract syntax tree.
//!
//! Identifiers are kept as spans (offset and length) into the source text, so
//! every node is a plain value; the resolver copies the named characters out
//! when it interns a symbol.

use vstd::prelude::*;

verus! {

/// A lexical token. `line` is the 1-based source line the token starts on.
#[derive(Clone, Copy, PartialEq, Eq, Structural, Debug)]
pub enum Tok {
    /// An integer literal.
    Num { val: i64, line: u64 },
    /// An identifier, as a span into the source character sequence.
    Ident { lo: usize, len: usize, line: u64 },
    /// The keyword `let`.
    KwLet { line: u64 },
    /// The literal `true`.
    KwTrue { line: u64 },
    /// The literal `false`.
    KwFalse { line: u64 },
    Plus { line: u64 },
    Minus { line: u64 },
    Star { line: u64 },
    Slash { line: u64 },
    LParen { line: u64 },
    RParen { line: u64 },
    Assign { line: u64 },
    Semi { line: u64 },
}

impl Tok {
    /// The source line a token stands on.
    pub open spec fn line_of(self) -> u64 {
        match self {
            Tok::Num { line, .. } => line,
            Tok::Ident { line, .. } => line,
            Tok::KwLet { line } => line,
            Tok::KwTrue { line } => line,
            Tok::KwFalse { line } => line,
            Tok::Plus { line } => line,
            Tok::Minus { line } => line,
            Tok::Star { line } => line,
            Tok::Slash { line } => line,
            Tok::LParen { line } => line,
            Tok::RParen { line } => line,
            Tok::Assign { line } => line,
            Tok::Semi { line } => line,
        }
    }

    /// The source line a token stands on.
    pub fn line(&self) -> (l: u64)
        ensures
            l == self.line_of(),
    {
        match *self {
            Tok::Num { line, .. } => line,
            Tok::Ident { line, .. } => line,
            Tok::KwLet { line } => line,
            Tok::KwTrue { line } => line,
            Tok::KwFalse { line } => line,
            Tok::Plus { line } => line,
            Tok::Minus { line } => line,
            Tok::Star { line } => line,
            Tok::Slash { line } => line,
            Tok::LParen { line } => line,
            Tok::RParen { line } => line,
            Tok::Assign { line } => line,
            Tok::Semi { line } => line,
        }
    }
}

/// An arithmetic operator.
#[derive(Clone, Copy, PartialEq, Eq, Structural, Debug)]
pub enum BinOp {
    Add,
    Sub,
    Mul,
    Div,
}

/// An expression. Identifier references carry their span into the source.
#[derive(Debug)]
pub enum Expr {
    /// An integer literal.
    Num { val: i64, line: u64 },
    /// A boolean literal.
    BoolLit { val: bool, line: u64 },
    /// A variable reference.
    Var { lo: usize, len: usize, line: u64 },
    /// A call of a named value with zero arguments or one argument.
    Call { lo: usize, len: usize, arg: Option<Box<Expr>>, line: u64 },
    /// A binary arithmetic expression.
    Bin { op: BinOp, lhs: Box<Expr>, rhs: Box<Expr>, line: u64 },
    /// An arithmetic negation.
    Neg { e: Box<Expr>, line: u64 },
}

/// A top-level statement.
#[derive(Debug)]
pub enum Stmt {
    /// `let name = init;`
    Let { lo: usize, len: usize, init: Expr, line: u64 },
    /// `expr;`
    Expr { expr: Expr, line: u64 },
}

} // verus!
