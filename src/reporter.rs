use vstd::prelude::*;

use crate::token::{Token, TokenType, TokenView};

verus! {

pub open spec fn digit_text(d: nat) -> Seq<char> {
    "0123456789"@.subrange(d as int, d + 1int)
}

/// The decimal digits of `n`, most significant first.
pub open spec fn decimal(n: nat) -> Seq<char>
    decreases n,
{
    if n < 10 {
        digit_text(n)
    } else {
        decimal(n / 10) + digit_text(n % 10)
    }
}

/// `[line <line>] Error<wheres>: <message>`
pub open spec fn report_text(line: nat, wheres: Seq<char>, message: Seq<char>) -> Seq<char> {
    "[line "@ + decimal(line) + "] Error"@ + wheres + ": "@ + message
}

/// A diagnostic that names a line only.
pub open spec fn line_report(line: nat, message: Seq<char>) -> Seq<char> {
    report_text(line, Seq::empty(), message)
}

/// Where a diagnostic about a token points: ` at end` for the end of input,
/// else ` at '<lexeme>'`.
pub open spec fn token_place(t: TokenView) -> Seq<char> {
    if t.kind == TokenType::EOF {
        " at end"@
    } else {
        " at '"@ + t.lexeme + "'"@
    }
}

/// A diagnostic that names a token.
pub open spec fn token_report(t: TokenView, message: Seq<char>) -> Seq<char> {
    report_text(t.line, token_place(t), message)
}

/// `<message>` then `[line <line>]` on the next line.
pub open spec fn runtime_report(message: Seq<char>, line: nat) -> Seq<char> {
    message + "\n[line "@ + decimal(line) + "]"@
}

/// The decimal text of `n`.
pub fn decimal_text(n: usize) -> (r: String)
    ensures
        r@ == decimal(n as nat),
    decreases n,
{
    proof {
        reveal_strlit("0123456789");
    }
    let digits = "0123456789";
    if n < 10 {
        String::from_str(digits.substring_char(n, n + 1))
    } else {
        let mut s = decimal_text(n / 10);
        let d = n % 10;
        s.append(digits.substring_char(d, d + 1));
        s
    }
}

/// Formats a diagnostic: `[line <line>] Error<wheres>: <message>`.
pub fn report(line: usize, wheres: &str, message: &str) -> (r: String)
    ensures
        r@ == report_text(line as nat, wheres@, message@),
{
    let mut s = String::from_str("[line ");
    let number = decimal_text(line);
    s.append(number.as_str());
    s.append("] Error");
    s.append(wheres);
    s.append(": ");
    s.append(message);
    s
}

/// Formats a diagnostic that names a line only.
pub fn error_at_line(line: usize, message: &str) -> (r: String)
    ensures
        r@ == line_report(line as nat, message@),
{
    proof {
        reveal_strlit("");
    }
    report(line, "", message)
}

/// Formats a diagnostic that names a token: ` at end` for the end of input,
/// else the token's source text in quotes.
pub fn error_at_token(token: &Token, message: &str) -> (r: String)
    ensures
        r@ == token_report(token@, message@),
{
    if token.token_type() == TokenType::EOF {
        report(token.line(), " at end", message)
    } else {
        let mut wheres = String::from_str(" at '");
        wheres.append(token.lexeme());
        wheres.append("'");
        report(token.line(), wheres.as_str(), message)
    }
}

/// Formats a runtime failure: the message, then the line on a line of its
/// own.
pub fn runtime_error(message: &str, line: usize) -> (r: String)
    ensures
        r@ == runtime_report(message@, line as nat),
{
    let mut s = String::from_str(message);
    s.append("\n[line ");
    let number = decimal_text(line);
    s.append(number.as_str());
    s.append("]");
    s
}

} // verus!
