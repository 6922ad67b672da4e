use vstd::prelude::*;

use crate::reporter::{runtime_error, runtime_report};
use crate::token::TokenType;

verus! {

/// An operation applied to values of kinds it does not accept.
#[derive(Debug, Clone)]
pub struct RuntimeError {
    msg: String,
}

impl View for RuntimeError {
    type V = Seq<char>;

    closed spec fn view(&self) -> Seq<char> {
        self.msg@
    }
}

impl RuntimeError {
    pub fn new(message: &str) -> (r: RuntimeError)
        ensures
            r@ == message@,
    {
        RuntimeError { msg: String::from_str(message) }
    }

    pub fn message(&self) -> (r: &str)
        ensures
            r@ == self@,
    {
        self.msg.as_str()
    }

    /// The diagnostic for this error, raised on line `line`.
    pub fn report(&self, line: usize) -> (r: String)
        ensures
            r@ == runtime_report(self@, line as nat),
    {
        runtime_error(self.msg.as_str(), line)
    }
}

/// What the evaluation rules read of a value: its kind, a boolean's value,
/// and whether a number is zero.
#[derive(PartialEq, Eq, Copy, Clone, Debug, Structural)]
pub enum Operand {
    Str,
    Number { zero: bool },
    Nil,
    Bool(bool),
}

/// Truthiness: `false`, `nil` and the number zero are false; every other
/// value, the empty string included, is true.
pub open spec fn truthy(v: Operand) -> bool {
    match v {
        Operand::Str => true,
        Operand::Number { zero } => !zero,
        Operand::Nil => false,
        Operand::Bool(b) => b,
    }
}

impl Operand {
    /// Whether the value counts as true (see `truthy`).
    pub fn is_truthy(&self) -> (r: bool)
        ensures
            r == truthy(*self),
    {
        match self {
            Operand::Str => true,
            Operand::Number { zero } => !*zero,
            Operand::Nil => false,
            Operand::Bool(b) => *b,
        }
    }
}

/// What a binary operator does with its two operands.
#[derive(PartialEq, Eq, Copy, Clone, Debug, Structural)]
pub enum Operation {
    /// The text of the left operand followed by that of the right one; a
    /// number stands as its decimal text.
    Concatenate,
    Add,
    Subtract,
    Multiply,
    Divide,
    Greater,
    GreaterEqual,
    Less,
    LessEqual,
    /// Compare two strings, or two numbers, for equality.
    Equal,
    /// Compare two strings, or two numbers, for inequality.
    NotEqual,
    /// The result is this boolean, whatever the operands hold.
    Known(bool),
}

/// What a prefix operator does with its operand.
#[derive(PartialEq, Eq, Copy, Clone, Debug, Structural)]
pub enum UnaryOperation {
    /// Negate the number.
    Negate,
    /// The result is this boolean.
    Known(bool),
}

pub open spec fn is_binary_operator(k: TokenType) -> bool {
    ||| k == TokenType::Minus
    ||| k == TokenType::Plus
    ||| k == TokenType::Slash
    ||| k == TokenType::Star
    ||| k == TokenType::Greater
    ||| k == TokenType::GreaterEqual
    ||| k == TokenType::Less
    ||| k == TokenType::LessEqual
    ||| k == TokenType::BangEqual
    ||| k == TokenType::EqualEqual
}

pub open spec fn is_unary_operator(k: TokenType) -> bool {
    k == TokenType::Minus || k == TokenType::Bang
}

pub open spec fn both_numbers(l: Operand, r: Operand) -> bool {
    l is Number && r is Number
}

/// `==` (or, with `negate`, `!=`): same kinds compare their values, values
/// of different kinds are never equal.
pub open spec fn equality_rule(l: Operand, r: Operand, negate: bool) -> Operation {
    match (l, r) {
        (Operand::Str, Operand::Str) => if negate {
            Operation::NotEqual
        } else {
            Operation::Equal
        },
        (Operand::Number { .. }, Operand::Number { .. }) => if negate {
            Operation::NotEqual
        } else {
            Operation::Equal
        },
        (Operand::Nil, Operand::Nil) => Operation::Known(!negate),
        (Operand::Bool(a), Operand::Bool(b)) => Operation::Known((a == b) != negate),
        _ => Operation::Known(negate),
    }
}

pub open spec fn numeric_rule(l: Operand, r: Operand, op: Operation, message: Seq<char>) -> Result<
    Operation,
    Seq<char>,
> {
    if both_numbers(l, r) {
        Ok(op)
    } else {
        Err(message)
    }
}

/// The operation that the binary operator `op` performs on operands `l` and
/// `r`, or the message of the error it raises.
pub open spec fn binary_rule(op: TokenType, l: Operand, r: Operand) -> Result<Operation, Seq<char>> {
    if op == TokenType::Plus {
        if both_numbers(l, r) {
            Ok(Operation::Add)
        } else if (l is Str && (r is Str || r is Number)) || (l is Number && r is Str) {
            Ok(Operation::Concatenate)
        } else {
            Err("Cannot apply addition operand on non-numeric values"@)
        }
    } else if op == TokenType::Minus {
        numeric_rule(
            l,
            r,
            Operation::Subtract,
            "Cannot apply subtraction operand on non-numeric values"@,
        )
    } else if op == TokenType::Star {
        numeric_rule(
            l,
            r,
            Operation::Multiply,
            "Cannot apply multiplication operand on non-numeric values"@,
        )
    } else if op == TokenType::Slash {
        numeric_rule(l, r, Operation::Divide, "Cannot apply division operand on non-numeric values"@)
    } else if op == TokenType::Greater {
        numeric_rule(
            l,
            r,
            Operation::Greater,
            "Cannot apply greater than operand on non-numeric values"@,
        )
    } else if op == TokenType::GreaterEqual {
        numeric_rule(
            l,
            r,
            Operation::GreaterEqual,
            "Cannot apply greater than or equal operand on non-numeric values"@,
        )
    } else if op == TokenType::Less {
        numeric_rule(l, r, Operation::Less, "Cannot apply less than operand on non-numeric values"@)
    } else if op == TokenType::LessEqual {
        numeric_rule(
            l,
            r,
            Operation::LessEqual,
            "Cannot apply less than or equal operand on non-numeric values"@,
        )
    } else if op == TokenType::EqualEqual {
        Ok(equality_rule(l, r, false))
    } else {
        Ok(equality_rule(l, r, true))
    }
}

/// The operation that the prefix operator `op` performs on `v`, or the
/// message of the error it raises.
pub open spec fn unary_rule(op: TokenType, v: Operand) -> Result<UnaryOperation, Seq<char>> {
    if op == TokenType::Minus {
        if v is Number {
            Ok(UnaryOperation::Negate)
        } else {
            Err("Cannot apply negative operand on non-numeric values"@)
        }
    } else {
        Ok(UnaryOperation::Known(!truthy(v)))
    }
}

/// The result of `rule` as an operation or a runtime error.
pub open spec fn follows<T>(r: Result<T, RuntimeError>, rule: Result<T, Seq<char>>) -> bool {
    match rule {
        Ok(o) => r == Ok::<T, RuntimeError>(o),
        Err(m) => r matches Err(e) && e@ == m,
    }
}

fn numeric(left: Operand, right: Operand, op: Operation, message: &str) -> (r: Result<
    Operation,
    RuntimeError,
>)
    ensures
        follows(r, numeric_rule(left, right, op, message@)),
{
    match (left, right) {
        (Operand::Number { .. }, Operand::Number { .. }) => Ok(op),
        _ => Err(RuntimeError::new(message)),
    }
}

fn equality(left: Operand, right: Operand, negate: bool) -> (r: Operation)
    ensures
        r == equality_rule(left, right, negate),
{
    match (left, right) {
        (Operand::Str, Operand::Str) | (Operand::Number { .. }, Operand::Number { .. }) => {
            if negate {
                Operation::NotEqual
            } else {
                Operation::Equal
            }
        },
        (Operand::Nil, Operand::Nil) => Operation::Known(!negate),
        (Operand::Bool(a), Operand::Bool(b)) => Operation::Known((a == b) != negate),
        _ => Operation::Known(negate),
    }
}

/// Decides what the binary operator `op` does with operands of the given
/// kinds (see `binary_rule`).
pub fn binary_operation(op: TokenType, left: Operand, right: Operand) -> (r: Result<
    Operation,
    RuntimeError,
>)
    requires
        is_binary_operator(op),
    ensures
        follows(r, binary_rule(op, left, right)),
{
    match op {
        TokenType::Plus => match (left, right) {
            (Operand::Number { .. }, Operand::Number { .. }) => Ok(Operation::Add),
            (Operand::Str, Operand::Str)
            | (Operand::Str, Operand::Number { .. })
            | (Operand::Number { .. }, Operand::Str) => Ok(Operation::Concatenate),
            _ => Err(RuntimeError::new("Cannot apply addition operand on non-numeric values")),
        },
        TokenType::Minus => numeric(
            left,
            right,
            Operation::Subtract,
            "Cannot apply subtraction operand on non-numeric values",
        ),
        TokenType::Star => numeric(
            left,
            right,
            Operation::Multiply,
            "Cannot apply multiplication operand on non-numeric values",
        ),
        TokenType::Slash => numeric(
            left,
            right,
            Operation::Divide,
            "Cannot apply division operand on non-numeric values",
        ),
        TokenType::Greater => numeric(
            left,
            right,
            Operation::Greater,
            "Cannot apply greater than operand on non-numeric values",
        ),
        TokenType::GreaterEqual => numeric(
            left,
            right,
            Operation::GreaterEqual,
            "Cannot apply greater than or equal operand on non-numeric values",
        ),
        TokenType::Less => numeric(
            left,
            right,
            Operation::Less,
            "Cannot apply less than operand on non-numeric values",
        ),
        TokenType::LessEqual => numeric(
            left,
            right,
            Operation::LessEqual,
            "Cannot apply less than or equal operand on non-numeric values",
        ),
        TokenType::EqualEqual => Ok(equality(left, right, false)),
        _ => Ok(equality(left, right, true)),
    }
}

/// Decides what the prefix operator `op` does with an operand of the given
/// kind (see `unary_rule`).
pub fn unary_operation(op: TokenType, operand: Operand) -> (r: Result<UnaryOperation, RuntimeError>)
    requires
        is_unary_operator(op),
    ensures
        follows(r, unary_rule(op, operand)),
{
    match op {
        TokenType::Minus => match operand {
            Operand::Number { .. } => Ok(UnaryOperation::Negate),
            _ => Err(RuntimeError::new("Cannot apply negative operand on non-numeric values")),
        },
        _ => Ok(UnaryOperation::Known(!operand.is_truthy())),
    }
}

/// Equality never fails: `==` and `!=` accept operands of any kinds, and
/// operands of different kinds are unequal.
pub proof fn lemma_equality_never_fails(op: TokenType, left: Operand, right: Operand)
    requires
        op == TokenType::EqualEqual || op == TokenType::BangEqual,
    ensures
        binary_rule(op, left, right) is Ok,
        !(left is Str && right is Str) && !(left is Number && right is Number) && !(left is Nil
            && right is Nil) && !(left is Bool && right is Bool) ==> binary_rule(op, left, right)
            == Ok::<Operation, Seq<char>>(Operation::Known(op == TokenType::BangEqual)),
{
}

} // verus!
