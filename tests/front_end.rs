use lox::ast_printer::AstPrinter;
use lox::reporter::{decimal_text, error_at_line, error_at_token, report, runtime_error};
use lox::run;
use lox::token::{Literal, Token, TokenType};

#[test]
fn run_gives_the_tree() {
    let expr = match run("1 + 2 * 3;") {
        Ok(e) => e,
        Err(d) => panic!("diagnostics: {d:?}"),
    };
    assert_eq!(AstPrinter.print(&expr), "(+ 1 (* 2 3))");
}

#[test]
fn run_reports_every_scan_error() {
    let diagnostics = match run("1 @\n$ \"open") {
        Ok(_) => panic!("bad characters pass"),
        Err(d) => d,
    };
    assert_eq!(
        diagnostics,
        vec![
            "[line 1] Error: Unexpected character.".to_string(),
            "[line 2] Error: Unexpected character.".to_string(),
            "[line 2] Error: Unterminated String".to_string(),
        ]
    );
}

#[test]
fn run_reports_the_parse_error() {
    let diagnostics = match run("(1 + 2") {
        Ok(_) => panic!("an unclosed group parses"),
        Err(d) => d,
    };
    assert_eq!(
        diagnostics,
        vec!["[line 1] Error at end: expect ')' after expression".to_string()]
    );
}

#[test]
fn diagnostic_formats() {
    assert_eq!(report(7, " at 'x'", "bad"), "[line 7] Error at 'x': bad");
    assert_eq!(error_at_line(1, "Unexpected character."), "[line 1] Error: Unexpected character.");
    let star = Token::new(TokenType::Star, "*", Literal::Null, 9);
    assert_eq!(error_at_token(&star, "m"), "[line 9] Error at '*': m");
    let end = Token::new(TokenType::EOF, "", Literal::Null, 10);
    assert_eq!(error_at_token(&end, "m"), "[line 10] Error at end: m");
    assert_eq!(runtime_error("oops", 4), "oops\n[line 4]");
}

#[test]
fn decimal_text_of_line_numbers() {
    assert_eq!(decimal_text(0), "0");
    assert_eq!(decimal_text(9), "9");
    assert_eq!(decimal_text(10), "10");
    assert_eq!(decimal_text(1234567), "1234567");
    assert_eq!(decimal_text(usize::MAX), usize::MAX.to_string());
}
