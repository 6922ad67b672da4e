use lox::scanner::Scanner;
use lox::token::{Literal, Token, TokenStream, TokenType};

fn kinds(source: &str) -> Vec<TokenType> {
    Scanner::parse(source).iter().map(|t| t.token_type()).collect()
}

#[test]
fn scanner_test_1() {
    let tokens: TokenStream = Scanner::parse(
        r#"
                var i = 1; // this is a comment
                print i;
            "#,
    )
    .into();
    println!("{tokens:?}");
    assert_eq!(tokens.to_string(), "var i = 1 ; print i ; EOF");
}

#[test]
fn test_2() {
    let tokens: TokenStream = Scanner::parse(
        r#"
                var a = true; // this is a comment
                var b = 2.13;
                var c = "abc";
            "#,
    )
    .into();
    println!("{tokens:?}");
    assert_eq!(
        tokens.to_string(),
        "var a = true ; var b = 2.13 ; var c = abc ; EOF"
    );
}

#[test]
fn test() {
    let token = Token::new(
        TokenType::String,
        "String",
        Literal::String("Hello World".to_string()),
        12,
    );
    println!("{token:?}");
    println!("{}", token.to_string());
    assert_eq!(token.to_string(), "Hello World");
    assert_eq!(token.line(), 12);
    assert_eq!(token.lexeme(), "String");
}

#[test]
fn two_character_operators() {
    assert_eq!(
        kinds("! != = == < <= > >="),
        vec![
            TokenType::Bang,
            TokenType::BangEqual,
            TokenType::Equal,
            TokenType::EqualEqual,
            TokenType::Less,
            TokenType::LessEqual,
            TokenType::Greater,
            TokenType::GreaterEqual,
            TokenType::EOF,
        ]
    );
    assert_eq!(
        kinds("!==="),
        vec![TokenType::BangEqual, TokenType::EqualEqual, TokenType::EOF]
    );
}

#[test]
fn single_character_tokens() {
    assert_eq!(
        kinds("(){},.-+;*/"),
        vec![
            TokenType::LeftParen,
            TokenType::RightParen,
            TokenType::LeftBrace,
            TokenType::RightBrace,
            TokenType::Comma,
            TokenType::Dot,
            TokenType::Minus,
            TokenType::Plus,
            TokenType::Semicolon,
            TokenType::Star,
            TokenType::Slash,
            TokenType::EOF,
        ]
    );
}

#[test]
fn empty_source_gives_end_token_only() {
    let tokens = Scanner::parse("");
    assert_eq!(tokens.len(), 1);
    assert_eq!(tokens[0].token_type(), TokenType::EOF);
    assert_eq!(tokens[0].lexeme(), "");
    assert_eq!(tokens[0].line(), 1);
}

#[test]
fn comment_runs_to_end_of_line() {
    let tokens = Scanner::parse("1 // two 2\n3");
    let kinds: Vec<TokenType> = tokens.iter().map(|t| t.token_type()).collect();
    assert_eq!(
        kinds,
        vec![TokenType::Number, TokenType::Number, TokenType::EOF]
    );
    assert_eq!(tokens[1].lexeme(), "3");
    assert_eq!(tokens[1].line(), 2);
    assert_eq!(tokens[2].line(), 2);
}

#[test]
fn numbers_keep_their_decimal_text() {
    let tokens = Scanner::parse("12.5 7 3.");
    assert_eq!(tokens[0].literal(), &Literal::Number("12.5".to_string()));
    assert_eq!(tokens[0].lexeme(), "12.5");
    assert_eq!(tokens[1].literal(), &Literal::Number("7".to_string()));
    assert_eq!(tokens[2].literal(), &Literal::Number("3".to_string()));
    assert_eq!(tokens[3].token_type(), TokenType::Dot);
    assert_eq!(tokens[4].token_type(), TokenType::EOF);
}

#[test]
fn number_at_end_of_input() {
    let tokens = Scanner::parse("42");
    assert_eq!(tokens.len(), 2);
    assert_eq!(tokens[0].literal(), &Literal::Number("42".to_string()));
}

#[test]
fn keywords_and_identifiers() {
    assert_eq!(
        kinds("and class else false for fun if nil or print return super this true var while"),
        vec![
            TokenType::And,
            TokenType::Class,
            TokenType::Else,
            TokenType::False,
            TokenType::For,
            TokenType::Fun,
            TokenType::If,
            TokenType::Nil,
            TokenType::Or,
            TokenType::Print,
            TokenType::Return,
            TokenType::Super,
            TokenType::This,
            TokenType::True,
            TokenType::Var,
            TokenType::While,
            TokenType::EOF,
        ]
    );
    let tokens = Scanner::parse("andy _x9 While");
    assert_eq!(tokens[0].token_type(), TokenType::Identifier);
    assert_eq!(tokens[0].lexeme(), "andy");
    assert_eq!(tokens[1].token_type(), TokenType::Identifier);
    assert_eq!(tokens[1].lexeme(), "_x9");
    assert_eq!(tokens[2].token_type(), TokenType::Identifier);
}

#[test]
fn string_token_keeps_its_first_line() {
    let (tokens, errors) = Scanner::scan("\"a\nb\" x");
    assert!(errors.is_empty());
    assert_eq!(tokens[0].token_type(), TokenType::String);
    assert_eq!(tokens[0].literal(), &Literal::String("a\nb".to_string()));
    assert_eq!(tokens[0].lexeme(), "\"a\nb\"");
    assert_eq!(tokens[0].line(), 1);
    assert_eq!(tokens[1].line(), 2);
}

#[test]
fn empty_string_literal() {
    let tokens = Scanner::parse("\"\"");
    assert_eq!(tokens[0].literal(), &Literal::String(String::new()));
    assert_eq!(tokens[0].to_string(), "");
}

#[test]
fn unterminated_string_is_reported() {
    let (tokens, errors) = Scanner::scan("1 \"abc\n");
    assert_eq!(tokens.len(), 2);
    assert_eq!(tokens[1].token_type(), TokenType::EOF);
    assert_eq!(tokens[1].line(), 2);
    assert_eq!(errors.len(), 1);
    assert_eq!(errors[0].line, 2);
    assert_eq!(errors[0].message, "Unterminated String");
    assert_eq!(errors[0].report(), "[line 2] Error: Unterminated String");
}

#[test]
fn unexpected_characters_are_reported_and_skipped() {
    let (tokens, errors) = Scanner::scan("1 @ 2\n#");
    let kinds: Vec<TokenType> = tokens.iter().map(|t| t.token_type()).collect();
    assert_eq!(
        kinds,
        vec![TokenType::Number, TokenType::Number, TokenType::EOF]
    );
    assert_eq!(errors.len(), 2);
    assert_eq!(errors[0].report(), "[line 1] Error: Unexpected character.");
    assert_eq!(errors[1].report(), "[line 2] Error: Unexpected character.");
}

#[test]
fn non_ascii_text_in_strings() {
    let tokens = Scanner::parse("\"héllo\" + 1");
    assert_eq!(tokens[0].literal(), &Literal::String("héllo".to_string()));
    assert_eq!(tokens[1].token_type(), TokenType::Plus);
}

#[test]
fn scanning_twice_gives_equal_tokens() {
    let source = "var a = \"x\ny\";\n// c\n1 >= 2.5 != nil";
    let first = Scanner::parse(source);
    let second = Scanner::parse(source);
    assert!(first == second);
    let lines: Vec<usize> = first.iter().map(|t| t.line()).collect();
    let again: Vec<usize> = second.iter().map(|t| t.line()).collect();
    assert_eq!(lines, again);
    assert_eq!(lines, vec![1, 1, 1, 1, 2, 4, 4, 4, 4, 4, 4]);
}

#[test]
fn token_stream_text() {
    let tokens: TokenStream = Scanner::parse("(1 + \"a\") == nil").into();
    assert_eq!(tokens.to_string(), "( 1 + a ) == nil EOF");
    let empty = TokenStream(Vec::new());
    assert_eq!(empty.to_string(), "");
}
