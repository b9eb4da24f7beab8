//! The expression tree built by the parser and walked by the evaluator.
use vstd::prelude::*;
use crate::literal::{alike, Literal};
use crate::token::Token;

verus! {

/// An expression; each node owns its children.
pub enum Expr {
    /// `condition ? then : else`.
    Ternary(Box<Expr>, Box<Expr>, Box<Expr>),
    /// `left <operator> right`.
    Binary(Box<Expr>, Token, Box<Expr>),
    /// `( inner )`.
    Grouping(Box<Expr>),
    Literal(Literal),
    /// `<operator> operand`.
    Unary(Token, Box<Expr>),
}

/// Whether no float literal stands anywhere in `e`.
pub open spec fn float_free(e: Expr) -> bool
    decreases e,
{
    match e {
        Expr::Ternary(c, t, f) => float_free(*c) && float_free(*t) && float_free(*f),
        Expr::Binary(l, _, r) => float_free(*l) && float_free(*r),
        Expr::Grouping(x) => float_free(*x),
        Expr::Literal(v) => !(v is Float),
        Expr::Unary(_, x) => float_free(*x),
    }
}

/// Whether two operator tokens are alike: kind, line and text.
pub open spec fn same_operator(a: Token, b: Token) -> bool {
    a.token_type == b.token_type && a.line == b.line && a.lexeme@ == b.lexeme@
}

/// Whether two trees have the same shape: the same nodes, operators and
/// literal values, up to the bits of doubles.
pub open spec fn same_shape(a: Expr, b: Expr) -> bool
    decreases a,
{
    match a {
        Expr::Ternary(c1, t1, e1) => match b {
            Expr::Ternary(c2, t2, e2) => same_shape(*c1, *c2) && same_shape(*t1, *t2) && same_shape(*e1, *e2),
            _ => false,
        },
        Expr::Binary(l1, o1, r1) => match b {
            Expr::Binary(l2, o2, r2) => same_shape(*l1, *l2) && same_operator(o1, o2) && same_shape(*r1, *r2),
            _ => false,
        },
        Expr::Grouping(x1) => match b {
            Expr::Grouping(x2) => same_shape(*x1, *x2),
            _ => false,
        },
        Expr::Literal(v1) => match b {
            Expr::Literal(v2) => alike(v1@, v2@),
            _ => false,
        },
        Expr::Unary(o1, x1) => match b {
            Expr::Unary(o2, x2) => same_operator(o1, o2) && same_shape(*x1, *x2),
            _ => false,
        },
    }
}

} // verus!
