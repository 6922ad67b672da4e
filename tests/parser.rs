use lox::ast_printer::AstPrinter;
use lox::expression::{ExprLiteral, Expression};
use lox::parser::Parser;
use lox::scanner::Scanner;
use lox::token::{Literal, Token, TokenType};

fn compile_to_ast(source_code: &str) -> String {
    let tokens = Scanner::parse(source_code);
    let expr = Parser::parse(tokens);
    AstPrinter.print(&expr)
}

#[test]
fn parser_test_1() {
    assert_eq!(compile_to_ast("2 + 2;"), "(+ 2 2)");
    assert_eq!(
        compile_to_ast("3.14 * (2 + 2);"),
        "(* 3.14 (group (+ 2 2)))"
    );
    assert_eq!(compile_to_ast("3.14 * 2 + 2;"), "(+ (* 3.14 2) 2)");

    println!("{}", compile_to_ast("123 + \"123\" != \"123123\";"));
    assert_eq!(
        compile_to_ast("123 + \"123\" != \"123123\";"),
        "(!= (+ 123 123) 123123)"
    );
}

fn sample_tree() -> Expression {
    Expression::Binary {
        left: Box::new(Expression::Literal {
            value: ExprLiteral::String("1".to_string()),
        }),
        operator: Token::new(TokenType::Plus, "+", Literal::Null, 1),
        right: Box::new(Expression::Grouping {
            expr: Box::new(Expression::Literal {
                value: ExprLiteral::String("2".to_string()),
            }),
        }),
    }
}

#[test]
fn expression_test_ast() {
    let expr = sample_tree();
    assert_eq!(AstPrinter.print(&expr), "(+ 1 (group 2))");
}

#[test]
fn mod_test_ast() {
    let expr = sample_tree();
    assert_eq!(AstPrinter.print(&expr), "(+ 1 (group 2))");
}

#[test]
fn operators_fold_to_the_left() {
    assert_eq!(compile_to_ast("1 + 1 * 2 - 3;"), "(- (+ 1 (* 1 2)) 3)");
    assert_eq!(
        compile_to_ast("1 + 1 * 2 - 3 / 4;"),
        "(- (+ 1 (* 1 2)) (/ 3 4))"
    );
    assert_eq!(compile_to_ast("8 / 4 / 2"), "(/ (/ 8 4) 2)");
}

#[test]
fn precedence_from_loosest_to_tightest() {
    assert_eq!(
        compile_to_ast("1 == 2 < 3 + 4 * -5"),
        "(== 1 (< 2 (+ 3 (* 4 (- 5)))))"
    );
    assert_eq!(
        compile_to_ast("1 * 2 + 3 < 4 == 5 != 6"),
        "(!= (== (< (+ (* 1 2) 3) 4) 5) 6)"
    );
    assert_eq!(compile_to_ast("(1 + 2) * 3"), "(* (group (+ 1 2)) 3)");
}

#[test]
fn prefix_operators_nest() {
    assert_eq!(compile_to_ast("!!true"), "(! (! true))");
    assert_eq!(compile_to_ast("--1"), "(- (- 1))");
    assert_eq!(compile_to_ast("!nil == false"), "(== (! nil) false)");
}

#[test]
fn literals_print_as_written() {
    assert_eq!(compile_to_ast("\"hi there\""), "hi there");
    assert_eq!(compile_to_ast("2.50"), "2.50");
    assert_eq!(compile_to_ast("nil"), "nil");
}

#[test]
fn unterminated_group_fails_to_parse() {
    let error = match Parser::parse_expression(Scanner::parse("(1 + 2")) {
        Ok(_) => panic!("an unclosed group parses"),
        Err(e) => e,
    };
    assert_eq!(error.message, "expect ')' after expression");
    assert_eq!(error.token.token_type(), TokenType::EOF);
    assert_eq!(
        error.report(),
        "[line 1] Error at end: expect ')' after expression"
    );
    let placeholder = Parser::parse(Scanner::parse("(1 + 2"));
    assert!(matches!(
        placeholder,
        Expression::Literal {
            value: ExprLiteral::Nil
        }
    ));
    assert_eq!(AstPrinter.print(&placeholder), "nil");
}

#[test]
fn unexpected_token_names_the_token() {
    let error = match Parser::parse_expression(Scanner::parse("1 +\n)")) {
        Ok(_) => panic!("a missing operand parses"),
        Err(e) => e,
    };
    assert_eq!(error.message, "unexpected token");
    assert_eq!(error.report(), "[line 2] Error at ')': unexpected token");
    let at_end = match Parser::parse_expression(Scanner::parse("")) {
        Ok(_) => panic!("empty input parses"),
        Err(e) => e,
    };
    assert_eq!(at_end.report(), "[line 1] Error at end: unexpected token");
}

#[test]
fn payload_mismatch_is_an_error() {
    let tokens = vec![
        Token::new(TokenType::Number, "1", Literal::Null, 1),
        Token::new(TokenType::EOF, "", Literal::Null, 1),
    ];
    let error = match Parser::parse_expression(tokens) {
        Ok(_) => panic!("a number without a payload parses"),
        Err(e) => e,
    };
    assert_eq!(error.message, "error parsing Number");
    let tokens = vec![
        Token::new(TokenType::String, "\"a\"", Literal::Null, 1),
        Token::new(TokenType::EOF, "", Literal::Null, 1),
    ];
    let error = match Parser::parse_expression(tokens) {
        Ok(_) => panic!("a string without a payload parses"),
        Err(e) => e,
    };
    assert_eq!(error.message, "error parsing Strings");
}

#[test]
fn parse_stops_after_one_expression() {
    assert_eq!(compile_to_ast("1 2 3"), "1");
    assert_eq!(compile_to_ast("true; false"), "true");
}
