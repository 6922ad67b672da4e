use vstd::prelude::*;

use crate::token::{Token, TokenView};

verus! {

/// A literal as written in an expression.
#[derive(Debug)]
pub enum ExprLiteral {
    String(String),
    Number(String),
    Nil,
    Bool(bool),
}

pub enum ExprLiteralView {
    Str(Seq<char>),
    Number(Seq<char>),
    Nil,
    Bool(bool),
}

impl View for ExprLiteral {
    type V = ExprLiteralView;

    open spec fn view(&self) -> ExprLiteralView {
        match self {
            ExprLiteral::String(s) => ExprLiteralView::Str(s@),
            ExprLiteral::Number(n) => ExprLiteralView::Number(n@),
            ExprLiteral::Nil => ExprLiteralView::Nil,
            ExprLiteral::Bool(b) => ExprLiteralView::Bool(*b),
        }
    }
}

/// How a literal shows itself: a string's content, a number's decimal text,
/// `nil`, `true` or `false`.
pub open spec fn value_text(v: ExprLiteralView) -> Seq<char> {
    match v {
        ExprLiteralView::Str(s) => s,
        ExprLiteralView::Number(n) => n,
        ExprLiteralView::Nil => "nil"@,
        ExprLiteralView::Bool(b) => if b {
            "true"@
        } else {
            "false"@
        },
    }
}

impl ExprLiteral {
    /// The literal's text (see `value_text`).
    pub fn to_string(&self) -> (r: String)
        ensures
            r@ == value_text(self@),
    {
        match self {
            ExprLiteral::String(s) => s.clone(),
            ExprLiteral::Number(n) => n.clone(),
            ExprLiteral::Nil => String::from_str("nil"),
            ExprLiteral::Bool(b) => if *b {
                String::from_str("true")
            } else {
                String::from_str("false")
            },
        }
    }
}

/// An expression tree; each node owns its children.
#[derive(Debug)]
pub enum Expression {
    Binary { left: Box<Expression>, operator: Token, right: Box<Expression> },
    Literal { value: ExprLiteral },
    Grouping { expr: Box<Expression> },
    Unary { operator: Token, right: Box<Expression> },
}

/// The abstract value of an expression tree.
pub enum ExprView {
    Binary { left: Box<ExprView>, operator: TokenView, right: Box<ExprView> },
    Literal { value: ExprLiteralView },
    Grouping { expr: Box<ExprView> },
    Unary { operator: TokenView, right: Box<ExprView> },
}

pub open spec fn expr_view(e: &Expression) -> ExprView
    decreases e,
{
    match e {
        Expression::Binary { left, operator, right } => ExprView::Binary {
            left: Box::new(expr_view(left)),
            operator: operator@,
            right: Box::new(expr_view(right)),
        },
        Expression::Literal { value } => ExprView::Literal { value: value@ },
        Expression::Grouping { expr } => ExprView::Grouping { expr: Box::new(expr_view(expr)) },
        Expression::Unary { operator, right } => ExprView::Unary {
            operator: operator@,
            right: Box::new(expr_view(right)),
        },
    }
}

impl View for Expression {
    type V = ExprView;

    open spec fn view(&self) -> ExprView {
        expr_view(self)
    }
}

} // verus!
