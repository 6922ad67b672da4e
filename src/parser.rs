use vstd::prelude::*;

use crate::expression::{ExprLiteral, ExprLiteralView, ExprView, Expression};
use crate::reporter::{error_at_token, token_report};
use crate::token::{tokens_view, Literal, LiteralView, Token, TokenType, TokenView};

verus! {

/// A syntax error: the token at which the parse failed, and why.
#[derive(Debug)]
pub struct ParseError {
    pub token: Token,
    pub message: String,
}

pub struct ParseErrorView {
    pub token: TokenView,
    pub message: Seq<char>,
}

impl View for ParseError {
    type V = ParseErrorView;

    open spec fn view(&self) -> ParseErrorView {
        ParseErrorView { token: self.token@, message: self.message@ }
    }
}

impl ParseError {
    /// The diagnostic line for this error.
    pub fn report(&self) -> (r: String)
        ensures
            r@ == token_report(self.token@, self.message@),
    {
        error_at_token(&self.token, self.message.as_str())
    }
}

/// Binding levels of the binary operators, loosest first.
pub const EQUALITY: u8 = 3;

pub const COMPARISON: u8 = 2;

pub const TERM: u8 = 1;

pub const FACTOR: u8 = 0;

/// The operators that bind at `level`.
pub open spec fn is_level_operator(level: u8, k: TokenType) -> bool {
    if level == EQUALITY {
        k == TokenType::BangEqual || k == TokenType::EqualEqual
    } else if level == COMPARISON {
        k == TokenType::Greater || k == TokenType::GreaterEqual || k == TokenType::Less || k
            == TokenType::LessEqual
    } else if level == TERM {
        k == TokenType::Minus || k == TokenType::Plus
    } else {
        k == TokenType::Slash || k == TokenType::Star
    }
}

pub open spec fn unexpected_token() -> Seq<char> {
    "unexpected token"@
}

pub open spec fn missing_right_paren() -> Seq<char> {
    "expect ')' after expression"@
}

/// A token sequence that the parser accepts: it ends with the end-of-input
/// token.
pub open spec fn well_formed_tokens(t: Seq<TokenView>) -> bool {
    t.len() > 0 && t.last().kind == TokenType::EOF
}

/// What parsing from a position gives: the tree and the position after it,
/// or the error.
pub type Parsed = Result<(ExprView, int), ParseErrorView>;

pub open spec fn at_end(t: Seq<TokenView>, p: int) -> bool {
    t[p].kind == TokenType::EOF
}

/// The token at `p` can be consumed.
pub open spec fn consumable(t: Seq<TokenView>, p: int) -> bool {
    0 <= p && p + 1 < t.len() && !at_end(t, p)
}

pub open spec fn fail_at(t: Seq<TokenView>, p: int, message: Seq<char>) -> Parsed {
    Err(ParseErrorView { token: t[p], message })
}

/// `q` lies after `p` and inside the sequence.
pub open spec fn forward(t: Seq<TokenView>, p: int, q: int) -> bool {
    p < q < t.len()
}

/// expression → equality
pub open spec fn expression(t: Seq<TokenView>, p: int) -> Parsed
    decreases t.len() - p, 10nat,
{
    binary(t, p, EQUALITY)
}

/// The operands of the operators at `level`: the next tighter level, and
/// unary expressions below the tightest.
pub open spec fn operand(t: Seq<TokenView>, p: int, level: u8) -> Parsed
    decreases t.len() - p, 2 * level + 2,
{
    if level == 0 {
        unary(t, p)
    } else {
        binary(t, p, (level - 1) as u8)
    }
}

/// level → operand ( operator-of-level operand )*
pub open spec fn binary(t: Seq<TokenView>, p: int, level: u8) -> Parsed
    decreases t.len() - p, 2 * level + 3,
{
    match operand(t, p, level) {
        Err(e) => Err(e),
        Ok((left, q)) => if forward(t, p, q) {
            binary_rest(t, q, left, level)
        } else {
            fail_at(t, p, unexpected_token())
        },
    }
}

/// The `( operator operand )*` part of a level, folded to the left onto
/// `left`.
pub open spec fn binary_rest(t: Seq<TokenView>, p: int, left: ExprView, level: u8) -> Parsed
    decreases t.len() - p, 2 * level + 3,
{
    if consumable(t, p) && is_level_operator(level, t[p].kind) {
        match operand(t, p + 1, level) {
            Err(e) => Err(e),
            Ok((right, q)) => if forward(t, p, q) {
                binary_rest(
                    t,
                    q,
                    ExprView::Binary { left: Box::new(left), operator: t[p], right: Box::new(right) },
                    level,
                )
            } else {
                fail_at(t, p, unexpected_token())
            },
        }
    } else {
        Ok((left, p))
    }
}

/// unary → ( "!" | "-" ) unary | primary
pub open spec fn unary(t: Seq<TokenView>, p: int) -> Parsed
    decreases t.len() - p, 1nat,
{
    if consumable(t, p) && (t[p].kind == TokenType::Bang || t[p].kind == TokenType::Minus) {
        match unary(t, p + 1) {
            Err(e) => Err(e),
            Ok((right, q)) => Ok((ExprView::Unary { operator: t[p], right: Box::new(right) }, q)),
        }
    } else {
        primary(t, p)
    }
}

pub open spec fn literal_at(value: ExprLiteralView, p: int) -> Parsed {
    Ok((ExprView::Literal { value }, p + 1))
}

/// primary → NUMBER | STRING | "true" | "false" | "nil" | "(" expression ")"
pub open spec fn primary(t: Seq<TokenView>, p: int) -> Parsed
    decreases t.len() - p, 0nat,
{
    if !consumable(t, p) {
        fail_at(t, p, unexpected_token())
    } else {
        let k = t[p].kind;
        if k == TokenType::False {
            literal_at(ExprLiteralView::Bool(false), p)
        } else if k == TokenType::True {
            literal_at(ExprLiteralView::Bool(true), p)
        } else if k == TokenType::Nil {
            literal_at(ExprLiteralView::Nil, p)
        } else if k == TokenType::Number {
            match t[p].literal {
                LiteralView::Number(n) => literal_at(ExprLiteralView::Number(n), p),
                _ => fail_at(t, p + 1, "error parsing Number"@),
            }
        } else if k == TokenType::String {
            match t[p].literal {
                LiteralView::Str(s) => literal_at(ExprLiteralView::Str(s), p),
                _ => fail_at(t, p + 1, "error parsing Strings"@),
            }
        } else if k == TokenType::LeftParen {
            match expression(t, p + 1) {
                Err(e) => Err(e),
                Ok((inner, q)) => if !forward(t, p, q) {
                    fail_at(t, p, unexpected_token())
                } else if consumable(t, q) && t[q].kind == TokenType::RightParen {
                    Ok((ExprView::Grouping { expr: Box::new(inner) }, q + 1))
                } else {
                    fail_at(t, q, missing_right_paren())
                },
            }
        } else {
            fail_at(t, p, unexpected_token())
        }
    }
}

/// The placeholder that stands for an expression that failed to parse.
pub open spec fn placeholder() -> ExprView {
    ExprView::Literal { value: ExprLiteralView::Nil }
}

/// The expression at the start of `t`, or the placeholder where it fails
/// to parse.
pub open spec fn parse_tokens(t: Seq<TokenView>) -> ExprView {
    match expression(t, 0) {
        Ok((e, _)) => e,
        Err(_) => placeholder(),
    }
}

/// The binding level of an operator kind (see `is_level_operator`).
pub open spec fn operator_level(k: TokenType) -> u8 {
    if is_level_operator(EQUALITY, k) {
        EQUALITY
    } else if is_level_operator(COMPARISON, k) {
        COMPARISON
    } else if is_level_operator(TERM, k) {
        TERM
    } else {
        FACTOR
    }
}

/// How loosely the top of a tree binds: the level of a binary node's
/// operator, and below every level for anything else.
pub open spec fn binding(e: ExprView) -> int {
    match e {
        ExprView::Binary { operator, .. } => operator_level(operator.kind) as int,
        _ => -1,
    }
}

/// The tree respects precedence and left associativity: a binary node's
/// operator is a binary operator, its left operand binds at least as tightly
/// as it does and its right operand strictly more tightly; a prefix
/// operator is `!` or `-` and its operand is no binary node; a group may
/// hold anything.
pub open spec fn respects_precedence(e: ExprView) -> bool
    decreases e,
{
    match e {
        ExprView::Binary { left, operator, right } => {
            let level = operator_level(operator.kind);
            &&& is_level_operator(level, operator.kind)
            &&& binding(*left) <= level
            &&& binding(*right) < level
            &&& respects_precedence(*left)
            &&& respects_precedence(*right)
        },
        ExprView::Unary { operator, right } => {
            &&& (operator.kind == TokenType::Bang || operator.kind == TokenType::Minus)
            &&& binding(*right) < 0
            &&& respects_precedence(*right)
        },
        ExprView::Grouping { expr } => respects_precedence(*expr),
        ExprView::Literal { .. } => true,
    }
}

/// The kind of the token that a literal is written as.
pub open spec fn literal_kind(v: ExprLiteralView) -> TokenType {
    match v {
        ExprLiteralView::Str(_) => TokenType::String,
        ExprLiteralView::Number(_) => TokenType::Number,
        ExprLiteralView::Nil => TokenType::Nil,
        ExprLiteralView::Bool(b) => if b {
            TokenType::True
        } else {
            TokenType::False
        },
    }
}

/// The kinds of the tokens that a tree stands for, in source order, with
/// the parentheses of its groups.
pub open spec fn source_kinds(e: ExprView) -> Seq<TokenType>
    decreases e,
{
    match e {
        ExprView::Binary { left, operator, right } => source_kinds(*left) + seq![operator.kind]
            + source_kinds(*right),
        ExprView::Unary { operator, right } => seq![operator.kind] + source_kinds(*right),
        ExprView::Grouping { expr } => seq![TokenType::LeftParen] + source_kinds(*expr) + seq![
            TokenType::RightParen,
        ],
        ExprView::Literal { value } => seq![literal_kind(value)],
    }
}

/// The kinds of the tokens from `p` up to `q`.
pub open spec fn kinds(t: Seq<TokenView>, p: int, q: int) -> Seq<TokenType> {
    t.subrange(p, q).map_values(|x: TokenView| x.kind)
}

/// A parsed tree from `p` to `q` that respects precedence, binds no more
/// loosely than `level`, and stands for the tokens from `p` to `q`.
pub open spec fn faithful(t: Seq<TokenView>, p: int, r: Parsed, level: int) -> bool {
    match r {
        Ok((e, q)) => {
            &&& respects_precedence(e)
            &&& binding(e) <= level
            &&& p <= q <= t.len()
            &&& source_kinds(e) =~= kinds(t, p, q)
        },
        Err(_) => true,
    }
}

proof fn lemma_kinds_join(t: Seq<TokenView>, a: int, b: int, c: int)
    requires
        0 <= a <= b <= c <= t.len(),
    ensures
        kinds(t, a, b) + kinds(t, b, c) =~= kinds(t, a, c),
{
}

proof fn lemma_binary_faithful(t: Seq<TokenView>, p: int, level: u8)
    requires
        0 <= p,
        level <= EQUALITY,
    ensures
        faithful(t, p, binary(t, p, level), level as int),
    decreases t.len() - p, 2 * level + 3,
{
    match operand(t, p, level) {
        Err(_) => {},
        Ok((left, q)) => {
            if forward(t, p, q) {
                lemma_operand_faithful(t, p, level);
                lemma_rest_faithful(t, p, q, left, level);
            }
        },
    }
}

proof fn lemma_rest_faithful(t: Seq<TokenView>, start: int, p: int, left: ExprView, level: u8)
    requires
        0 <= start < p < t.len(),
        level <= EQUALITY,
        faithful(t, start, Ok((left, p)), level as int),
    ensures
        faithful(t, start, binary_rest(t, p, left, level), level as int),
    decreases t.len() - p, 2 * level + 3,
{
    if consumable(t, p) && is_level_operator(level, t[p].kind) {
        match operand(t, p + 1, level) {
            Err(_) => {},
            Ok((right, q)) => {
                if forward(t, p, q) {
                    lemma_operand_faithful(t, p + 1, level);
                    let op = t[p];
                    let joined = ExprView::Binary {
                        left: Box::new(left),
                        operator: op,
                        right: Box::new(right),
                    };
                    assert(operator_level(op.kind) == level);
                    lemma_kinds_join(t, start, p, p + 1);
                    lemma_kinds_join(t, start, p + 1, q);
                    assert(kinds(t, p, p + 1) =~= seq![op.kind]);
                    assert(source_kinds(joined) =~= kinds(t, start, q));
                    lemma_rest_faithful(t, start, q, joined, level);
                }
            },
        }
    }
}

proof fn lemma_operand_faithful(t: Seq<TokenView>, p: int, level: u8)
    requires
        0 <= p,
        level <= EQUALITY,
    ensures
        faithful(t, p, operand(t, p, level), level - 1),
    decreases t.len() - p, 2 * level + 2,
{
    if level == 0 {
        lemma_unary_faithful(t, p);
    } else {
        lemma_binary_faithful(t, p, (level - 1) as u8);
    }
}

proof fn lemma_unary_faithful(t: Seq<TokenView>, p: int)
    requires
        0 <= p,
    ensures
        faithful(t, p, unary(t, p), -1),
    decreases t.len() - p, 1nat,
{
    if consumable(t, p) && (t[p].kind == TokenType::Bang || t[p].kind == TokenType::Minus) {
        lemma_unary_faithful(t, p + 1);
        match unary(t, p + 1) {
            Err(_) => {},
            Ok((right, q)) => {
                lemma_kinds_join(t, p, p + 1, q);
                assert(kinds(t, p, p + 1) =~= seq![t[p].kind]);
            },
        }
    } else {
        lemma_primary_faithful(t, p);
    }
}

proof fn lemma_primary_faithful(t: Seq<TokenView>, p: int)
    requires
        0 <= p,
    ensures
        faithful(t, p, primary(t, p), -1),
    decreases t.len() - p, 0nat,
{
    if consumable(t, p) {
        assert(kinds(t, p, p + 1) =~= seq![t[p].kind]);
        if t[p].kind == TokenType::LeftParen {
            lemma_binary_faithful(t, p + 1, EQUALITY);
            match expression(t, p + 1) {
                Err(_) => {},
                Ok((inner, q)) => {
                    if forward(t, p, q) && consumable(t, q) && t[q].kind == TokenType::RightParen {
                        lemma_kinds_join(t, p, p + 1, q);
                        lemma_kinds_join(t, p, q, q + 1);
                        assert(kinds(t, q, q + 1) =~= seq![t[q].kind]);
                    }
                },
            }
        }
    }
}

/// What the parser builds is what the source says: the tree respects
/// precedence and left associativity (so its printed form shows the
/// source's grouping), and it stands for exactly the tokens that were
/// consumed, in order.
pub proof fn lemma_parse_is_faithful(t: Seq<TokenView>)
    ensures
        expression(t, 0) matches Ok((e, q)) ==> respects_precedence(e) && source_kinds(e)
            == kinds(t, 0, q),
{
    lemma_binary_faithful(t, 0, EQUALITY);
}

/// Parses one expression from a token sequence by recursive descent.
pub struct Parser {
    tokens: Vec<Token>,
    current: usize,
}

impl Parser {
    pub closed spec fn well_formed(&self) -> bool {
        &&& well_formed_tokens(tokens_view(self.tokens@))
        &&& self.current < self.tokens@.len()
    }

    /// The tokens the parser reads.
    pub closed spec fn tokens(&self) -> Seq<TokenView> {
        tokens_view(self.tokens@)
    }

    /// The position of the next token to read.
    pub closed spec fn position(&self) -> int {
        self.current as int
    }

    /// `r` is what `expected` says, and the parser stopped where it says.
    spec fn gives(&self, r: &Result<Expression, ParseError>, expected: Parsed) -> bool {
        match expected {
            Ok((e, q)) => match r {
                Ok(x) => x@ == e && self.current == q,
                Err(_) => false,
            },
            Err(err) => match r {
                Ok(_) => false,
                Err(x) => x@ == err,
            },
        }
    }

    pub fn new(tokens: Vec<Token>) -> (r: Parser)
        requires
            well_formed_tokens(tokens_view(tokens@)),
        ensures
            r.well_formed(),
            r.tokens() == tokens_view(tokens@),
            r.position() == 0,
    {
        Parser { tokens, current: 0 }
    }

    /// Parses the expression at the start of `tokens`; where it fails to
    /// parse, the result is the `nil` placeholder.
    pub fn parse(tokens: Vec<Token>) -> (r: Expression)
        requires
            well_formed_tokens(tokens_view(tokens@)),
        ensures
            r@ == parse_tokens(tokens_view(tokens@)),
    {
        let mut parser = Parser::new(tokens);
        match parser.expression() {
            Ok(e) => e,
            Err(_) => Expression::Literal { value: ExprLiteral::Nil },
        }
    }

    /// Parses the expression at the start of `tokens`, or reports why it
    /// fails to parse.
    pub fn parse_expression(tokens: Vec<Token>) -> (r: Result<Expression, ParseError>)
        requires
            well_formed_tokens(tokens_view(tokens@)),
        ensures
            match expression(tokens_view(tokens@), 0) {
                Ok((e, _)) => r matches Ok(x) && x@ == e,
                Err(err) => r matches Err(x) && x@ == err,
            },
    {
        let mut parser = Parser::new(tokens);
        parser.expression()
    }

    /// Before the end-of-input token there is a next token.
    proof fn lemma_room_after(&self)
        requires
            self.well_formed(),
            !at_end(self.tokens(), self.position()),
        ensures
            self.current + 1 < self.tokens@.len(),
            consumable(self.tokens(), self.position()),
    {
        assert(self.tokens().len() == self.tokens@.len());
    }

    fn is_at_end(&self) -> (r: bool)
        requires
            self.well_formed(),
        ensures
            r == at_end(self.tokens(), self.position()),
    {
        self.peek().token_type() == TokenType::EOF
    }

    fn peek(&self) -> (r: &Token)
        requires
            self.well_formed(),
        ensures
            r@ == self.tokens()[self.position()],
    {
        &self.tokens[self.current]
    }

    /// Moves past the current token, unless it ends the input.
    fn advance(&mut self)
        requires
            old(self).well_formed(),
        ensures
            final(self).well_formed(),
            final(self).tokens == old(self).tokens,
            final(self).current == old(self).current + if at_end(
                old(self).tokens(),
                old(self).position(),
            ) {
                0int
            } else {
                1int
            },
    {
        if !self.is_at_end() {
            let len = self.tokens.len();
            proof {
                self.lemma_room_after();
            }
            assert(self.current + 1 < len);
            self.current = self.current + 1;
        }
    }

    /// Consumes the current token when it is of kind `token_type`.
    fn matches(&mut self, token_type: TokenType) -> (r: bool)
        requires
            old(self).well_formed(),
        ensures
            final(self).well_formed(),
            final(self).tokens == old(self).tokens,
            r == (consumable(old(self).tokens(), old(self).position()) && old(self).tokens()[old(
                self,
            ).position()].kind == token_type),
            final(self).current == old(self).current + if r {
                1int
            } else {
                0int
            },
    {
        if !self.is_at_end() && self.peek().token_type() == token_type {
            self.advance();
            true
        } else {
            false
        }
    }

    /// Consumes the current token when it is an operator of `level`.
    fn match_operator(&mut self, level: u8) -> (r: bool)
        requires
            old(self).well_formed(),
        ensures
            final(self).well_formed(),
            final(self).tokens == old(self).tokens,
            r == (consumable(old(self).tokens(), old(self).position()) && is_level_operator(
                level,
                old(self).tokens()[old(self).position()].kind,
            )),
            final(self).current == old(self).current + if r {
                1int
            } else {
                0int
            },
    {
        let kind = self.peek().token_type();
        let operator = if level == EQUALITY {
            kind == TokenType::BangEqual || kind == TokenType::EqualEqual
        } else if level == COMPARISON {
            kind == TokenType::Greater || kind == TokenType::GreaterEqual || kind == TokenType::Less
                || kind == TokenType::LessEqual
        } else if level == TERM {
            kind == TokenType::Minus || kind == TokenType::Plus
        } else {
            kind == TokenType::Slash || kind == TokenType::Star
        };
        if !self.is_at_end() && operator {
            self.advance();
            true
        } else {
            false
        }
    }

    /// The token just consumed.
    fn previous(&self) -> (r: &Token)
        requires
            self.well_formed(),
            self.current > 0,
        ensures
            r@ == self.tokens()[self.position() - 1],
    {
        &self.tokens[self.current - 1]
    }

    fn error(token: &Token, message: &str) -> (r: ParseError)
        ensures
            r@ == (ParseErrorView { token: token@, message: message@ }),
    {
        ParseError { token: token.duplicate(), message: String::from_str(message) }
    }

    fn expression(&mut self) -> (r: Result<Expression, ParseError>)
        requires
            old(self).well_formed(),
        ensures
            final(self).well_formed(),
            final(self).tokens == old(self).tokens,
            final(self).gives(&r, expression(old(self).tokens(), old(self).position())),
            r is Ok ==> final(self).current > old(self).current,
        decreases old(self).tokens@.len() - old(self).current, 10nat,
    {
        self.binary(EQUALITY)
    }

    fn operand(&mut self, level: u8) -> (r: Result<Expression, ParseError>)
        requires
            old(self).well_formed(),
            level <= EQUALITY,
        ensures
            final(self).well_formed(),
            final(self).tokens == old(self).tokens,
            final(self).gives(&r, operand(old(self).tokens(), old(self).position(), level)),
            r is Ok ==> final(self).current > old(self).current,
        decreases old(self).tokens@.len() - old(self).current, 2 * level + 2,
    {
        if level == 0 {
            self.unary()
        } else {
            self.binary(level - 1)
        }
    }

    /// One binary level: an operand, then operators of the level and their
    /// right operands, folded to the left.
    fn binary(&mut self, level: u8) -> (r: Result<Expression, ParseError>)
        requires
            old(self).well_formed(),
            level <= EQUALITY,
        ensures
            final(self).well_formed(),
            final(self).tokens == old(self).tokens,
            final(self).gives(&r, binary(old(self).tokens(), old(self).position(), level)),
            r is Ok ==> final(self).current > old(self).current,
        decreases old(self).tokens@.len() - old(self).current, 2 * level + 3,
    {
        let ghost t = self.tokens();
        let ghost p = self.position();
        let mut expr = match self.operand(level) {
            Ok(e) => e,
            Err(e) => return Err(e),
        };
        let ghost goal = binary(t, p, level);
        assert(goal == binary_rest(t, self.position(), expr@, level));
        loop
            invariant
                self.well_formed(),
                self.tokens() == t,
                self.tokens == old(self).tokens,
                level <= EQUALITY,
                p == old(self).current,
                t == old(self).tokens(),
                goal == binary(t, p, level),
                p < self.current,
                goal == binary_rest(t, self.position(), expr@, level),
            ensures
                self.well_formed(),
                self.tokens == old(self).tokens,
                p < self.current,
                goal == Ok::<(ExprView, int), ParseErrorView>((expr@, self.position())),
            decreases t.len() - self.current,
        {
            let ghost q = self.position();
            if !self.match_operator(level) {
                break;
            }
            let operator = self.previous().duplicate();
            let right = match self.operand(level) {
                Ok(e) => e,
                Err(e) => return Err(e),
            };
            expr = Expression::Binary { left: Box::new(expr), operator, right: Box::new(right) };
        }
        Ok(expr)
    }

    fn unary(&mut self) -> (r: Result<Expression, ParseError>)
        requires
            old(self).well_formed(),
        ensures
            final(self).well_formed(),
            final(self).tokens == old(self).tokens,
            final(self).gives(&r, unary(old(self).tokens(), old(self).position())),
            r is Ok ==> final(self).current > old(self).current,
        decreases old(self).tokens@.len() - old(self).current, 1nat,
    {
        if self.matches(TokenType::Bang) || self.matches(TokenType::Minus) {
            let operator = self.previous().duplicate();
            return match self.unary() {
                Ok(right) => Ok(Expression::Unary { operator, right: Box::new(right) }),
                Err(e) => Err(e),
            };
        }
        self.primary()
    }

    fn primary(&mut self) -> (r: Result<Expression, ParseError>)
        requires
            old(self).well_formed(),
        ensures
            final(self).well_formed(),
            final(self).tokens == old(self).tokens,
            final(self).gives(&r, primary(old(self).tokens(), old(self).position())),
            r is Ok ==> final(self).current > old(self).current,
        decreases old(self).tokens@.len() - old(self).current, 0nat,
    {
        if self.matches(TokenType::False) {
            return Ok(Expression::Literal { value: ExprLiteral::Bool(false) });
        }
        if self.matches(TokenType::True) {
            return Ok(Expression::Literal { value: ExprLiteral::Bool(true) });
        }
        if self.matches(TokenType::Nil) {
            return Ok(Expression::Literal { value: ExprLiteral::Nil });
        }
        if self.matches(TokenType::Number) {
            return match self.previous().literal() {
                Literal::Number(n) => Ok(Expression::Literal { value: ExprLiteral::Number(n.clone()) }),
                _ => Err(Self::error(self.peek(), "error parsing Number")),
            };
        }
        if self.matches(TokenType::String) {
            return match self.previous().literal() {
                Literal::String(s) => Ok(Expression::Literal { value: ExprLiteral::String(s.clone()) }),
                _ => Err(Self::error(self.peek(), "error parsing Strings")),
            };
        }
        if self.matches(TokenType::LeftParen) {
            let inner = match self.expression() {
                Ok(e) => e,
                Err(e) => return Err(e),
            };
            if self.matches(TokenType::RightParen) {
                return Ok(Expression::Grouping { expr: Box::new(inner) });
            }
            return Err(Self::error(self.peek(), "expect ')' after expression"));
        }
        Err(Self::error(self.peek(), "unexpected token"))
    }
}

} // verus!
