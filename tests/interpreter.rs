use lox::interpreter::{
    binary_operation, unary_operation, Operand, Operation, RuntimeError, UnaryOperation,
};
use lox::token::TokenType;

const ONE: Operand = Operand::Number { zero: false };
const ZERO: Operand = Operand::Number { zero: true };

fn error_of(r: Result<Operation, RuntimeError>) -> String {
    match r {
        Ok(o) => panic!("no error: {o:?}"),
        Err(e) => e.message().to_string(),
    }
}

#[test]
fn numeric_string_promotion() {
    assert_eq!(
        binary_operation(TokenType::Plus, ONE, Operand::Str).unwrap(),
        Operation::Concatenate
    );
    assert_eq!(
        binary_operation(TokenType::Plus, Operand::Str, ONE).unwrap(),
        Operation::Concatenate
    );
    assert_eq!(
        binary_operation(TokenType::Plus, Operand::Str, Operand::Str).unwrap(),
        Operation::Concatenate
    );
    assert_eq!(
        binary_operation(TokenType::Plus, ONE, ZERO).unwrap(),
        Operation::Add
    );
    assert_eq!(
        binary_operation(TokenType::EqualEqual, Operand::Str, Operand::Str).unwrap(),
        Operation::Equal
    );
    assert_eq!(
        binary_operation(TokenType::BangEqual, Operand::Str, Operand::Str).unwrap(),
        Operation::NotEqual
    );
}

#[test]
fn cross_type_equality_never_fails() {
    assert_eq!(
        binary_operation(TokenType::EqualEqual, Operand::Str, ONE).unwrap(),
        Operation::Known(false)
    );
    assert_eq!(
        binary_operation(TokenType::BangEqual, Operand::Str, ONE).unwrap(),
        Operation::Known(true)
    );
    assert_eq!(
        binary_operation(TokenType::EqualEqual, Operand::Nil, Operand::Bool(false)).unwrap(),
        Operation::Known(false)
    );
    assert_eq!(
        binary_operation(TokenType::EqualEqual, Operand::Nil, Operand::Nil).unwrap(),
        Operation::Known(true)
    );
    assert_eq!(
        binary_operation(TokenType::BangEqual, Operand::Nil, Operand::Nil).unwrap(),
        Operation::Known(false)
    );
    assert_eq!(
        binary_operation(
            TokenType::EqualEqual,
            Operand::Bool(true),
            Operand::Bool(true)
        )
        .unwrap(),
        Operation::Known(true)
    );
    assert_eq!(
        binary_operation(
            TokenType::BangEqual,
            Operand::Bool(true),
            Operand::Bool(false)
        )
        .unwrap(),
        Operation::Known(true)
    );
    assert_eq!(
        binary_operation(TokenType::EqualEqual, ONE, ZERO).unwrap(),
        Operation::Equal
    );
}

#[test]
fn truthiness() {
    assert_eq!(
        unary_operation(TokenType::Bang, ZERO).unwrap(),
        UnaryOperation::Known(true)
    );
    assert_eq!(
        unary_operation(TokenType::Bang, Operand::Nil).unwrap(),
        UnaryOperation::Known(true)
    );
    assert_eq!(
        unary_operation(TokenType::Bang, ONE).unwrap(),
        UnaryOperation::Known(false)
    );
    assert_eq!(
        unary_operation(TokenType::Bang, Operand::Str).unwrap(),
        UnaryOperation::Known(false)
    );
    assert_eq!(
        unary_operation(TokenType::Bang, Operand::Bool(false)).unwrap(),
        UnaryOperation::Known(true)
    );
    assert!(!Operand::Nil.is_truthy());
    assert!(!ZERO.is_truthy());
    assert!(Operand::Str.is_truthy());
    assert!(Operand::Bool(true).is_truthy());
}

#[test]
fn negating_a_string_fails() {
    let error = match unary_operation(TokenType::Minus, Operand::Str) {
        Ok(o) => panic!("no error: {o:?}"),
        Err(e) => e,
    };
    assert_eq!(
        error.message(),
        "Cannot apply negative operand on non-numeric values"
    );
    assert_eq!(
        error.report(3),
        "Cannot apply negative operand on non-numeric values\n[line 3]"
    );
    assert_eq!(
        unary_operation(TokenType::Minus, ONE).unwrap(),
        UnaryOperation::Negate
    );
    assert!(unary_operation(TokenType::Minus, Operand::Nil).is_err());
    assert!(unary_operation(TokenType::Minus, Operand::Bool(true)).is_err());
}

#[test]
fn each_numeric_operator_names_itself_when_it_fails() {
    let cases = [
        (TokenType::Plus, "Cannot apply addition operand on non-numeric values"),
        (TokenType::Minus, "Cannot apply subtraction operand on non-numeric values"),
        (TokenType::Star, "Cannot apply multiplication operand on non-numeric values"),
        (TokenType::Slash, "Cannot apply division operand on non-numeric values"),
        (TokenType::Greater, "Cannot apply greater than operand on non-numeric values"),
        (
            TokenType::GreaterEqual,
            "Cannot apply greater than or equal operand on non-numeric values",
        ),
        (TokenType::Less, "Cannot apply less than operand on non-numeric values"),
        (
            TokenType::LessEqual,
            "Cannot apply less than or equal operand on non-numeric values",
        ),
    ];
    for (op, message) in cases {
        assert_eq!(error_of(binary_operation(op, Operand::Nil, ONE)), message);
        assert_eq!(error_of(binary_operation(op, ONE, Operand::Bool(true))), message);
    }
    assert!(binary_operation(TokenType::Minus, Operand::Str, Operand::Str).is_err());
}

#[test]
fn numeric_operators_on_numbers() {
    assert_eq!(binary_operation(TokenType::Minus, ONE, ONE).unwrap(), Operation::Subtract);
    assert_eq!(binary_operation(TokenType::Star, ONE, ONE).unwrap(), Operation::Multiply);
    assert_eq!(binary_operation(TokenType::Slash, ONE, ZERO).unwrap(), Operation::Divide);
    assert_eq!(binary_operation(TokenType::Greater, ONE, ONE).unwrap(), Operation::Greater);
    assert_eq!(
        binary_operation(TokenType::GreaterEqual, ONE, ONE).unwrap(),
        Operation::GreaterEqual
    );
    assert_eq!(binary_operation(TokenType::Less, ONE, ONE).unwrap(), Operation::Less);
    assert_eq!(
        binary_operation(TokenType::LessEqual, ONE, ONE).unwrap(),
        Operation::LessEqual
    );
}

#[test]
fn runtime_error_keeps_its_message() {
    let error = RuntimeError::new("boom");
    assert_eq!(error.message(), "boom");
    assert_eq!(error.report(12), "boom\n[line 12]");
}
