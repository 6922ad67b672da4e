//! Front end of a small expression language: a scanner from source text to
//! tokens, a recursive-descent parser from tokens to an expression tree, a
//! printer for trees, and the typing rules of the evaluator.
use vstd::prelude::*;

pub mod ast_printer;
pub mod expression;
pub mod interpreter;
pub mod parser;
pub mod reporter;
pub mod scanner;
pub mod token;

use crate::expression::Expression;
use crate::parser::{expression, Parser};
use crate::reporter::{line_report, token_report};
use crate::scanner::{scan, Scanner};

verus! {

/// The diagnostics that one source unit gives: one per scan error where
/// scanning met any, else the parse error, if any.
pub open spec fn diagnostics(src: Seq<char>) -> Seq<Seq<char>> {
    let scanned = scan(src);
    if scanned.errors.len() > 0 {
        scanned.errors.map_values(|e: crate::scanner::ScanErrorView| line_report(e.line, e.message))
    } else {
        match expression(scanned.tokens, 0) {
            Ok(_) => Seq::empty(),
            Err(e) => seq![token_report(e.token, e.message)],
        }
    }
}

/// Scans and parses one source unit. Where that gives diagnostics, they are
/// returned in order; else the expression is.
pub fn run(source_code: &str) -> (r: Result<Expression, Vec<String>>)
    requires
        source_code@.len() < usize::MAX,
    ensures
        diagnostics(source_code@).len() == 0 ==> (r matches Ok(e) && expression(
            scan(source_code@).tokens,
            0,
        ) matches Ok((tree, _)) && e@ == tree),
        diagnostics(source_code@).len() > 0 ==> (r matches Err(d) && d@.len() == diagnostics(
            source_code@,
        ).len() && forall|i: int|
            0 <= i < d@.len() ==> #[trigger] d@[i]@ == diagnostics(source_code@)[i]),
{
    let (tokens, errors) = Scanner::scan(source_code);
    if errors.len() > 0 {
        let mut reports: Vec<String> = Vec::new();
        let mut i: usize = 0;
        while i < errors.len()
            invariant
                i <= errors@.len(),
                errors@.len() > 0,
                crate::scanner::errors_view(errors@) == scan(source_code@).errors,
                reports@.len() == i,
                forall|j: int| 0 <= j < i ==> #[trigger] reports@[j]@ == diagnostics(source_code@)[j],
            decreases errors@.len() - i,
        {
            reports.push(errors[i].report());
            i = i + 1;
        }
        return Err(reports);
    }
    proof {
        crate::scanner::lemma_scan_well_formed(source_code@);
    }
    match Parser::parse_expression(tokens) {
        Ok(e) => Ok(e),
        Err(e) => Err(vec![e.report()]),
    }
}

} // verus!
