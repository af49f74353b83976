//! Expression trees: a closed set of node variants with exclusive ownership
//! of children.
use vstd::prelude::*;

use crate::token::{Token, TokenType};

verus! {

/// An expression node. Each non-leaf node exclusively owns its children, so a
/// value of this type is always a tree.
#[derive(Debug)]
pub enum Expr {
    Assign(Box<Assign>),
    Binary(Box<Binary>),
    Unary(Box<Unary>),
    Literal(Box<Literal>),
    Grouping(Box<Grouping>),
}

/// An assignment expression.
#[derive(Debug)]
pub struct Assign {
    pub name: Token,
    pub value: Expr,
}

/// A binary expression.
#[derive(Debug)]
pub struct Binary {
    pub left: Expr,
    pub operator: Token,
    pub right: Expr,
}

/// A unary (prefix) expression.
#[derive(Debug)]
pub struct Unary {
    pub operator: Token,
    pub right: Expr,
}

/// A literal expression.
#[derive(Debug)]
pub struct Literal {
    pub value: Token,
}

/// A parenthesized expression.
#[derive(Debug)]
pub struct Grouping {
    pub expr: Expr,
}

impl Binary {
    /// Create a binary node.
    pub fn new(left: Expr, operator: Token, right: Expr) -> (e: Expr)
        ensures
            e == Expr::Binary(Box::new(Binary { left, operator, right })),
    {
        Expr::Binary(Box::new(Binary { left, operator, right }))
    }
}

impl Unary {
    /// Create a unary node.
    pub fn new(operator: Token, right: Expr) -> (e: Expr)
        ensures
            e == Expr::Unary(Box::new(Unary { operator, right })),
    {
        Expr::Unary(Box::new(Unary { operator, right }))
    }
}

impl Literal {
    /// Create a literal node.
    pub fn new(value: Token) -> (e: Expr)
        ensures
            e == Expr::Literal(Box::new(Literal { value })),
    {
        Expr::Literal(Box::new(Literal { value }))
    }
}

impl Grouping {
    /// Create a grouping node.
    pub fn new(expr: Expr) -> (e: Expr)
        ensures
            e == Expr::Grouping(Box::new(Grouping { expr })),
    {
        Expr::Grouping(Box::new(Grouping { expr }))
    }
}

impl Expr {
    /// Every operator or literal token held by a node is of a kind that can
    /// stand there: operators are never end-of-file markers, and a literal
    /// wraps one of the literal kinds or the wildcard.
    pub open spec fn well_formed(self) -> bool
        decreases self,
    {
        match self {
            Expr::Assign(a) => a.name.token_type != TokenType::EOF && a.value.well_formed(),
            Expr::Binary(b) => b.operator.token_type != TokenType::EOF && b.left.well_formed()
                && b.right.well_formed(),
            Expr::Unary(u) => u.operator.token_type != TokenType::EOF && u.right.well_formed(),
            Expr::Literal(l) => l.value.token_type == TokenType::Int || l.value.token_type
                == TokenType::Float || l.value.token_type == TokenType::Char
                || l.value.token_type == TokenType::String || l.value.token_type
                == TokenType::FormString || l.value.token_type == TokenType::Underscore,
            Expr::Grouping(g) => g.expr.well_formed(),
        }
    }
}

} // verus!
