//! The expression half of the abstract syntax tree: binary and unary
//! operator applications, literals and identifiers. Tree-shaped, no
//! sharing, no cycles.
use vstd::prelude::*;
use crate::token::{SToken, Token};

verus! {

/// The mathematical model of an expression.
pub enum SExpr {
    Binary(SBinaryExpr),
    Unary(SUnaryExpr),
    Literal(SLiteralExpr),
    Identifier(Seq<char>),
}

/// The model of a binary operator application.
pub struct SBinaryExpr {
    pub left: Box<SExpr>,
    pub op: SToken,
    pub right: Box<SExpr>,
}

/// The model of a unary operator application.
pub struct SUnaryExpr {
    pub op: SToken,
    pub right: Box<SExpr>,
}

/// The model of a literal: a numeral kept as its decimal spelling, or a
/// string kept verbatim.
pub enum SLiteralExpr {
    NUMBER(Seq<char>),
    STRING(Seq<char>),
}

/// A parsed expression.
#[derive(Debug)]
pub enum Expr {
    /// A binary operator applied to two sub-expressions.
    Binary(BinaryExpr),
    /// A unary operator applied to one sub-expression.
    Unary(UnaryExpr),
    /// A literal value.
    Literal(LiteralExpr),
    /// A variable read, by name.
    Identifier(String),
}

/// A binary operator application; the operator token is kept whole.
#[derive(Debug)]
pub struct BinaryExpr {
    pub left: Box<Expr>,
    pub op: Token,
    pub right: Box<Expr>,
}

/// A unary operator application; unary prefixes chain to the right.
#[derive(Debug)]
pub struct UnaryExpr {
    pub op: Token,
    pub right: Box<Expr>,
}

/// A literal value. The language has no distinct boolean type: `nil` and
/// `false` lower to the numeral `0`, `true` to the numeral `1`. A
/// numeral is kept as its decimal source spelling; downstream consumers
/// read it as a number.
#[derive(Debug)]
pub enum LiteralExpr {
    NUMBER(String),
    STRING(String),
}

/// The model of an expression tree.
pub open spec fn expr_view(e: Expr) -> SExpr
    decreases e,
{
    match e {
        Expr::Binary(b) => SExpr::Binary(
            SBinaryExpr {
                left: Box::new(expr_view(*b.left)),
                op: b.op@,
                right: Box::new(expr_view(*b.right)),
            },
        ),
        Expr::Unary(u) => SExpr::Unary(
            SUnaryExpr { op: u.op@, right: Box::new(expr_view(*u.right)) },
        ),
        Expr::Literal(l) => SExpr::Literal(
            match l {
                LiteralExpr::NUMBER(s) => SLiteralExpr::NUMBER(s@),
                LiteralExpr::STRING(s) => SLiteralExpr::STRING(s@),
            },
        ),
        Expr::Identifier(s) => SExpr::Identifier(s@),
    }
}

impl View for Expr {
    type V = SExpr;

    open spec fn view(&self) -> SExpr {
        expr_view(*self)
    }
}

impl BinaryExpr {
    /// Builds a binary node from its two children and its operator.
    pub fn new(left: Expr, op: Token, right: Expr) -> (r: BinaryExpr)
        ensures
            *r.left == left,
            r.op == op,
            *r.right == right,
    {
        BinaryExpr { left: Box::new(left), op, right: Box::new(right) }
    }
}

impl UnaryExpr {
    /// Builds a unary node from its operator and its operand.
    pub fn new(op: Token, right: Expr) -> (r: UnaryExpr)
        ensures
            r.op == op,
            *r.right == right,
    {
        UnaryExpr { op, right: Box::new(right) }
    }
}

} // verus!
