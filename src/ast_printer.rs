use vstd::prelude::*;

use crate::expression::{value_text, ExprView, Expression};

verus! {

/// The fully parenthesised prefix form of an expression: `(<op> <left>
/// <right>)`, `(<op> <operand>)`, `(group <inner>)`, or a literal's text.
pub open spec fn printed(e: ExprView) -> Seq<char>
    decreases e,
{
    match e {
        ExprView::Binary { left, operator, right } => "("@ + operator.lexeme + " "@ + printed(*left)
            + " "@ + printed(*right) + ")"@,
        ExprView::Literal { value } => value_text(value),
        ExprView::Grouping { expr } => "(group "@ + printed(*expr) + ")"@,
        ExprView::Unary { operator, right } => "("@ + operator.lexeme + " "@ + printed(*right)
            + ")"@,
    }
}

/// Shows an expression tree in fully parenthesised prefix form.
pub struct AstPrinter;

impl AstPrinter {
    /// The printed form of `expr` (see `printed`).
    pub fn print(&self, expr: &Expression) -> (r: String)
        ensures
            r@ == printed(expr@),
        decreases expr,
    {
        match expr {
            Expression::Binary { left, operator, right } => {
                let mut s = String::from_str("(");
                s.append(operator.lexeme());
                s.append(" ");
                let l = self.print(left);
                s.append(l.as_str());
                s.append(" ");
                let r = self.print(right);
                s.append(r.as_str());
                s.append(")");
                s
            },
            Expression::Literal { value } => value.to_string(),
            Expression::Grouping { expr } => {
                let mut s = String::from_str("(group ");
                let inner = self.print(expr);
                s.append(inner.as_str());
                s.append(")");
                s
            },
            Expression::Unary { operator, right } => {
                let mut s = String::from_str("(");
                s.append(operator.lexeme());
                s.append(" ");
                let r = self.print(right);
                s.append(r.as_str());
                s.append(")");
                s
            },
        }
    }
}

} // verus!
