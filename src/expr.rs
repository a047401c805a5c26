use vstd::prelude::*;

use crate::error::GloxError;
use crate::interpreter::{Visitor, agrees, eval};
use crate::token::{Literal, Token};

verus! {

/// An expression tree; each node owns its children.
#[derive(Debug)]
pub enum Expr {
    Grouping(Grouping),
    Binary(Binary),
    Unary(Unary),
    Literal(LiteralExpr),
}

impl Expr {
    /// Hands this node to the visitor method for its form, which gives its value.
    pub fn accept<V: Visitor>(&self, visitor: &V) -> (r: Result<Literal, GloxError>)
        ensures
            agrees(r, eval(*self)),
    {
        match self {
            Expr::Grouping(x) => visitor.visit_grouping(x),
            Expr::Unary(x) => visitor.visit_unary(x),
            Expr::Binary(x) => visitor.visit_binary(x),
            Expr::Literal(x) => visitor.visit_literal(x),
        }
    }
}

#[derive(Debug)]
pub struct Grouping {
    pub expression: Box<Expr>,
}

#[derive(Debug)]
pub struct Binary {
    pub left: Box<Expr>,
    pub operator: Token,
    pub right: Box<Expr>,
}

#[derive(Debug)]
pub struct Unary {
    pub operator: Token,
    pub right: Box<Expr>,
}

#[derive(Debug)]
pub struct LiteralExpr {
    pub value: Literal,
}

} // verus!
