use vstd::prelude::*;

use crate::reporter::error_at_line;
use crate::token::{tokens_view, Literal, LiteralView, Token, TokenType, TokenView};

verus! {

/// A character that the scanner could not use, or a string that never
/// closed.
#[derive(Clone, Debug)]
pub struct ScanError {
    pub line: usize,
    pub message: String,
}

/// The abstract value of a scan error.
pub struct ScanErrorView {
    pub line: nat,
    pub message: Seq<char>,
}

impl View for ScanError {
    type V = ScanErrorView;

    open spec fn view(&self) -> ScanErrorView {
        ScanErrorView { line: self.line as nat, message: self.message@ }
    }
}

impl ScanError {
    /// The diagnostic line for this error.
    pub fn report(&self) -> (r: String)
        ensures
            r@ == crate::reporter::line_report(self.line as nat, self.message@),
    {
        error_at_line(self.line, self.message.as_str())
    }
}

pub open spec fn errors_view(errors: Seq<ScanError>) -> Seq<ScanErrorView> {
    errors.map_values(|e: ScanError| e@)
}

pub open spec fn unexpected_character() -> Seq<char> {
    "Unexpected character."@
}

pub open spec fn unterminated_string() -> Seq<char> {
    "Unterminated String"@
}

pub open spec fn is_digit(c: char) -> bool {
    '0' <= c && c <= '9'
}

pub open spec fn is_alpha(c: char) -> bool {
    ('a' <= c && c <= 'z') || ('A' <= c && c <= 'Z') || c == '_'
}

pub open spec fn is_alpha_numeric(c: char) -> bool {
    is_alpha(c) || is_digit(c)
}

/// The first index at or after `i` that holds no digit (or the end).
pub open spec fn digits_end(src: Seq<char>, i: int) -> int
    decreases src.len() - i,
{
    if i >= src.len() || !is_digit(src[i]) {
        i
    } else {
        digits_end(src, i + 1)
    }
}

/// The first index at or after `i` that holds neither a letter, a digit nor
/// an underscore (or the end).
pub open spec fn word_end(src: Seq<char>, i: int) -> int
    decreases src.len() - i,
{
    if i >= src.len() || !is_alpha_numeric(src[i]) {
        i
    } else {
        word_end(src, i + 1)
    }
}

/// The first index at or after `i` that holds a line break (or the end).
pub open spec fn line_end(src: Seq<char>, i: int) -> int
    decreases src.len() - i,
{
    if i >= src.len() || src[i] == '\n' {
        i
    } else {
        line_end(src, i + 1)
    }
}

/// The first index at or after `i` that holds a double quote (or the end).
pub open spec fn quote_end(src: Seq<char>, i: int) -> int
    decreases src.len() - i,
{
    if i >= src.len() || src[i] == '"' {
        i
    } else {
        quote_end(src, i + 1)
    }
}

/// Where a number that starts at `start` ends: its digits, then a `.` and
/// more digits only where at least one digit follows the `.`.
pub open spec fn number_end(src: Seq<char>, start: int) -> int {
    let whole = digits_end(src, start);
    if whole + 1 < src.len() && src[whole] == '.' && is_digit(src[whole + 1]) {
        digits_end(src, whole + 1)
    } else {
        whole
    }
}

pub open spec fn count_newlines(s: Seq<char>) -> nat
    decreases s.len(),
{
    if s.len() == 0 {
        0
    } else {
        count_newlines(s.drop_last()) + if s.last() == '\n' {
            1nat
        } else {
            0nat
        }
    }
}

/// The reserved word that `text` spells, if any.
pub open spec fn keyword(text: Seq<char>) -> Option<TokenType> {
    if text == "and"@ {
        Some(TokenType::And)
    } else if text == "class"@ {
        Some(TokenType::Class)
    } else if text == "else"@ {
        Some(TokenType::Else)
    } else if text == "false"@ {
        Some(TokenType::False)
    } else if text == "for"@ {
        Some(TokenType::For)
    } else if text == "fun"@ {
        Some(TokenType::Fun)
    } else if text == "if"@ {
        Some(TokenType::If)
    } else if text == "nil"@ {
        Some(TokenType::Nil)
    } else if text == "or"@ {
        Some(TokenType::Or)
    } else if text == "print"@ {
        Some(TokenType::Print)
    } else if text == "return"@ {
        Some(TokenType::Return)
    } else if text == "super"@ {
        Some(TokenType::Super)
    } else if text == "this"@ {
        Some(TokenType::This)
    } else if text == "true"@ {
        Some(TokenType::True)
    } else if text == "var"@ {
        Some(TokenType::Var)
    } else if text == "while"@ {
        Some(TokenType::While)
    } else {
        None
    }
}

/// The kind of a token made of the one character `c` alone.
pub open spec fn single_char_kind(c: char) -> Option<TokenType> {
    if c == '(' {
        Some(TokenType::LeftParen)
    } else if c == ')' {
        Some(TokenType::RightParen)
    } else if c == '{' {
        Some(TokenType::LeftBrace)
    } else if c == '}' {
        Some(TokenType::RightBrace)
    } else if c == ',' {
        Some(TokenType::Comma)
    } else if c == '.' {
        Some(TokenType::Dot)
    } else if c == '-' {
        Some(TokenType::Minus)
    } else if c == '+' {
        Some(TokenType::Plus)
    } else if c == ';' {
        Some(TokenType::Semicolon)
    } else if c == '*' {
        Some(TokenType::Star)
    } else {
        None
    }
}

/// For `!`, `=`, `<` and `>`: the kind alone, and the kind when `=` follows.
pub open spec fn operator_kinds(c: char) -> Option<(TokenType, TokenType)> {
    if c == '!' {
        Some((TokenType::Bang, TokenType::BangEqual))
    } else if c == '=' {
        Some((TokenType::Equal, TokenType::EqualEqual))
    } else if c == '<' {
        Some((TokenType::Less, TokenType::LessEqual))
    } else if c == '>' {
        Some((TokenType::Greater, TokenType::GreaterEqual))
    } else {
        None
    }
}

/// One step of the scanner: where it stops, the line it is on afterwards,
/// and the token or the error it produced, if any.
pub struct ScanStep {
    pub next: int,
    pub line: nat,
    pub token: Option<TokenView>,
    pub error: Option<ScanErrorView>,
}

pub open spec fn emit(
    src: Seq<char>,
    start: int,
    end: int,
    kind: TokenType,
    literal: LiteralView,
    line: nat,
) -> ScanStep {
    ScanStep {
        next: end,
        line,
        token: Some(TokenView { kind, lexeme: src.subrange(start, end), literal, line }),
        error: None,
    }
}

pub open spec fn skip(next: int, line: nat) -> ScanStep {
    ScanStep { next, line, token: None, error: None }
}

pub open spec fn fail(next: int, line: nat, message: Seq<char>) -> ScanStep {
    ScanStep { next, line, token: None, error: Some(ScanErrorView { line, message }) }
}

pub open spec fn followed_by(src: Seq<char>, pos: int, c: char) -> bool {
    pos + 1 < src.len() && src[pos + 1] == c
}

/// What the scanner does with the character at `pos`, on line `line`.
pub open spec fn scan_step(src: Seq<char>, pos: int, line: nat) -> ScanStep {
    let c = src[pos];
    if single_char_kind(c) is Some {
        emit(src, pos, pos + 1, single_char_kind(c)->0, LiteralView::Null, line)
    } else if operator_kinds(c) is Some {
        let kinds = operator_kinds(c)->0;
        if followed_by(src, pos, '=') {
            emit(src, pos, pos + 2, kinds.1, LiteralView::Null, line)
        } else {
            emit(src, pos, pos + 1, kinds.0, LiteralView::Null, line)
        }
    } else if c == '/' {
        if followed_by(src, pos, '/') {
            skip(line_end(src, pos + 2), line)
        } else {
            emit(src, pos, pos + 1, TokenType::Slash, LiteralView::Null, line)
        }
    } else if c == ' ' || c == '\r' || c == '\t' {
        skip(pos + 1, line)
    } else if c == '\n' {
        skip(pos + 1, line + 1)
    } else if c == '"' {
        let close = quote_end(src, pos + 1);
        let after = line + count_newlines(src.subrange(pos + 1, close));
        if close >= src.len() {
            fail(close, after, unterminated_string())
        } else {
            ScanStep {
                next: close + 1,
                line: after,
                token: Some(
                    TokenView {
                        kind: TokenType::String,
                        lexeme: src.subrange(pos, close + 1),
                        literal: LiteralView::Str(src.subrange(pos + 1, close)),
                        line,
                    },
                ),
                error: None,
            }
        }
    } else if is_digit(c) {
        let end = number_end(src, pos);
        emit(src, pos, end, TokenType::Number, LiteralView::Number(src.subrange(pos, end)), line)
    } else if is_alpha(c) {
        let end = word_end(src, pos + 1);
        let text = src.subrange(pos, end);
        let kind = match keyword(text) {
            Some(k) => k,
            None => TokenType::Identifier,
        };
        emit(src, pos, end, kind, LiteralView::Null, line)
    } else {
        fail(pos + 1, line, unexpected_character())
    }
}

/// What scanning produces: the tokens, ending with the end-of-input token,
/// and the errors met on the way.
pub struct Scanned {
    pub tokens: Seq<TokenView>,
    pub errors: Seq<ScanErrorView>,
}

pub open spec fn end_token(line: nat) -> TokenView {
    TokenView { kind: TokenType::EOF, lexeme: Seq::empty(), literal: LiteralView::Null, line }
}

pub open spec fn option_seq<T>(o: Option<T>) -> Seq<T> {
    match o {
        Some(x) => seq![x],
        None => Seq::empty(),
    }
}

/// Scanning `src` from index `pos` on line `line` to the end.
pub open spec fn scan_from(src: Seq<char>, pos: int, line: nat) -> Scanned
    decreases src.len() - pos,
{
    if pos < 0 || pos >= src.len() {
        Scanned { tokens: seq![end_token(line)], errors: Seq::empty() }
    } else {
        let step = scan_step(src, pos, line);
        if step.next <= pos || step.next > src.len() {
            Scanned { tokens: seq![end_token(line)], errors: Seq::empty() }
        } else {
            let rest = scan_from(src, step.next, step.line);
            Scanned {
                tokens: option_seq(step.token) + rest.tokens,
                errors: option_seq(step.error) + rest.errors,
            }
        }
    }
}

/// Scanning a whole source text, from its first line.
pub open spec fn scan(src: Seq<char>) -> Scanned {
    scan_from(src, 0, 1)
}

proof fn lemma_scan_from_ends_with_end_token(src: Seq<char>, pos: int, line: nat)
    ensures
        scan_from(src, pos, line).tokens.len() > 0,
        scan_from(src, pos, line).tokens.last().kind == TokenType::EOF,
    decreases src.len() - pos,
{
    if 0 <= pos < src.len() {
        let step = scan_step(src, pos, line);
        if pos < step.next <= src.len() {
            lemma_scan_from_ends_with_end_token(src, step.next, step.line);
            let rest = scan_from(src, step.next, step.line).tokens;
            assert((option_seq(step.token) + rest).last() == rest.last());
        }
    }
}

/// Scanning always ends with the end-of-input token, whatever errors it
/// met.
pub proof fn lemma_scan_well_formed(src: Seq<char>)
    ensures
        scan(src).tokens.len() > 0,
        scan(src).tokens.last().kind == TokenType::EOF,
{
    lemma_scan_from_ends_with_end_token(src, 0, 1);
}

/// Scanning is deterministic: two scans of one source, each meeting the
/// contract of `Scanner::scan`, give equal tokens, lines included, and equal
/// errors.
pub proof fn lemma_scan_deterministic(
    src: Seq<char>,
    first: (Seq<Token>, Seq<ScanError>),
    second: (Seq<Token>, Seq<ScanError>),
)
    requires
        tokens_view(first.0) == scan(src).tokens,
        errors_view(first.1) == scan(src).errors,
        tokens_view(second.0) == scan(src).tokens,
        errors_view(second.1) == scan(src).errors,
    ensures
        tokens_view(first.0) == tokens_view(second.0),
        forall|i: int|
            0 <= i < first.0.len() ==> #[trigger] first.0[i]@.line == second.0[i]@.line,
        errors_view(first.1) == errors_view(second.1),
{
    assert forall|i: int| 0 <= i < first.0.len() implies #[trigger] first.0[i]@.line
        == second.0[i]@.line by {
        assert(tokens_view(first.0).len() == first.0.len());
        assert(tokens_view(second.0).len() == second.0.len());
        assert(tokens_view(first.0)[i] == first.0[i]@);
        assert(tokens_view(second.0)[i] == second.0[i]@);
    }
}

/// Turns source text into tokens. Positions count characters.
pub struct Scanner {
    source: Vec<char>,
    text: String,
    tokens: Vec<Token>,
    errors: Vec<ScanError>,
    start: usize,
    current: usize,
    line: usize,
}

impl Scanner {
    spec fn inv(&self) -> bool {
        &&& self.text@ == self.source@
        &&& self.source@.len() < usize::MAX
        &&& self.start <= self.current <= self.source@.len()
        &&& 1 <= self.line <= self.current + 1
    }

    /// `after` is this scanner once it has dealt with the character at `pos`.
    spec fn steps_to(&self, after: &Scanner, pos: int) -> bool {
        let step = scan_step(self.source@, pos, self.line as nat);
        &&& after.source@ == self.source@
        &&& pos < after.current
        &&& after.current as int == step.next
        &&& after.line as nat == step.line
        &&& tokens_view(after.tokens@) == tokens_view(self.tokens@) + option_seq(step.token)
        &&& errors_view(after.errors@) == errors_view(self.errors@) + option_seq(step.error)
    }

    fn new(source: &str) -> (r: Scanner)
        requires
            source@.len() < usize::MAX,
        ensures
            r.inv(),
            r.source@ == source@,
            r.current == 0,
            r.line == 1,
            r.tokens@.len() == 0,
            r.errors@.len() == 0,
    {
        let mut chars: Vec<char> = Vec::new();
        for c in it: source.chars()
            invariant
                chars@ == it.seq().take(it.index() as int),
                it.seq() == source@,
        {
            chars.push(c);
        }
        assert(chars@ =~= source@);
        let text = String::from_str(source);
        Scanner {
            source: chars,
            text,
            tokens: Vec::new(),
            errors: Vec::new(),
            start: 0,
            current: 0,
            line: 1,
        }
    }

    fn scan_tokens(&mut self)
        requires
            old(self).inv(),
        ensures
            final(self).inv(),
            final(self).source@ == old(self).source@,
            tokens_view(final(self).tokens@) == tokens_view(old(self).tokens@) + scan_from(
                old(self).source@,
                old(self).current as int,
                old(self).line as nat,
            ).tokens,
            errors_view(final(self).errors@) == errors_view(old(self).errors@) + scan_from(
                old(self).source@,
                old(self).current as int,
                old(self).line as nat,
            ).errors,
    {
        let ghost src = self.source@;
        let ghost all = scan_from(src, self.current as int, self.line as nat);
        let ghost first_tokens = tokens_view(self.tokens@);
        let ghost first_errors = errors_view(self.errors@);
        while self.current < self.source.len()
            invariant
                self.inv(),
                self.source@ == src,
                first_tokens + all.tokens == tokens_view(self.tokens@) + scan_from(
                    src,
                    self.current as int,
                    self.line as nat,
                ).tokens,
                first_errors + all.errors == errors_view(self.errors@) + scan_from(
                    src,
                    self.current as int,
                    self.line as nat,
                ).errors,
            decreases src.len() - self.current,
        {
            let ghost before = *self;
            self.scan_token();
            proof {
                let step = scan_step(src, before.current as int, before.line as nat);
                let rest = scan_from(src, step.next, step.line);
                assert(tokens_view(before.tokens@) + (option_seq(step.token) + rest.tokens)
                    =~= tokens_view(self.tokens@) + rest.tokens);
                assert(errors_view(before.errors@) + (option_seq(step.error) + rest.errors)
                    =~= errors_view(self.errors@) + rest.errors);
            }
        }
        let ghost before = self.tokens@;
        proof {
            reveal_strlit("");
            assert(""@ =~= Seq::<char>::empty());
        }
        let end = Token::new(TokenType::EOF, "", Literal::Null, self.line);
        assert(end@ == end_token(self.line as nat));
        self.tokens.push(end);
        proof {
            assert(tokens_view(self.tokens@) =~= tokens_view(before).push(
                end_token(self.line as nat),
            ));
            assert(first_tokens + all.tokens =~= tokens_view(self.tokens@));
            assert(first_errors + all.errors =~= errors_view(self.errors@));
        }
    }

    /// Deals with the character at the current position.
    fn scan_token(&mut self)
        requires
            old(self).inv(),
            old(self).current < old(self).source@.len(),
        ensures
            final(self).inv(),
            old(self).steps_to(final(self), old(self).current as int),
    {
        self.start = self.current;
        let ghost at_start = *self;
        let c = self.next_char();
        let line = self.line;
        match c {
            '(' => self.add_token(TokenType::LeftParen, Literal::Null, line),
            ')' => self.add_token(TokenType::RightParen, Literal::Null, line),
            '{' => self.add_token(TokenType::LeftBrace, Literal::Null, line),
            '}' => self.add_token(TokenType::RightBrace, Literal::Null, line),
            ',' => self.add_token(TokenType::Comma, Literal::Null, line),
            '.' => self.add_token(TokenType::Dot, Literal::Null, line),
            '-' => self.add_token(TokenType::Minus, Literal::Null, line),
            '+' => self.add_token(TokenType::Plus, Literal::Null, line),
            ';' => self.add_token(TokenType::Semicolon, Literal::Null, line),
            '*' => self.add_token(TokenType::Star, Literal::Null, line),
            '!' => {
                let kind = if self.next_char_matches('=') {
                    TokenType::BangEqual
                } else {
                    TokenType::Bang
                };
                self.add_token(kind, Literal::Null, line);
            },
            '=' => {
                let kind = if self.next_char_matches('=') {
                    TokenType::EqualEqual
                } else {
                    TokenType::Equal
                };
                self.add_token(kind, Literal::Null, line);
            },
            '<' => {
                let kind = if self.next_char_matches('=') {
                    TokenType::LessEqual
                } else {
                    TokenType::Less
                };
                self.add_token(kind, Literal::Null, line);
            },
            '>' => {
                let kind = if self.next_char_matches('=') {
                    TokenType::GreaterEqual
                } else {
                    TokenType::Greater
                };
                self.add_token(kind, Literal::Null, line);
            },
            '/' => {
                if self.next_char_matches('/') {
                    self.comment();
                } else {
                    self.add_token(TokenType::Slash, Literal::Null, line);
                }
            },
            ' ' | '\r' | '\t' => {},
            '\n' => {
                self.line = self.line + 1;
            },
            '"' => self.string(),
            _ => {
                if Self::is_digit(c) {
                    self.number();
                } else if Self::is_alpha(c) {
                    self.identifier();
                } else {
                    self.error("Unexpected character.");
                }
            },
        }
        proof {
            assert(at_start.steps_to(self, at_start.start as int));
        }
    }

    fn is_digit(c: char) -> (r: bool)
        ensures
            r == is_digit(c),
    {
        '0' <= c && c <= '9'
    }

    fn is_alpha(c: char) -> (r: bool)
        ensures
            r == is_alpha(c),
    {
        ('a' <= c && c <= 'z') || ('A' <= c && c <= 'Z') || c == '_'
    }

    fn is_alpha_numeric(c: char) -> (r: bool)
        ensures
            r == is_alpha_numeric(c),
    {
        Self::is_alpha(c) || Self::is_digit(c)
    }

    /// Consumes the rest of a `//` comment, up to the line break.
    fn comment(&mut self)
        requires
            old(self).inv(),
            old(self).start + 2 == old(self).current,
            old(self).source@[old(self).start as int] == '/',
            old(self).source@[old(self).start + 1] == '/',
        ensures
            final(self).inv(),
            old(self).steps_to(final(self), old(self).start as int),
    {
        let ghost src = self.source@;
        while self.current < self.source.len() && self.source[self.current] != '\n'
            invariant
                self.inv(),
                self.source@ == src,
                self.start + 2 <= self.current,
                line_end(src, self.current as int) == line_end(src, self.start + 2),
                self.tokens == old(self).tokens,
                self.errors == old(self).errors,
                self.line == old(self).line,
                self.start == old(self).start,
            decreases src.len() - self.current,
        {
            self.current = self.current + 1;
        }
    }

    fn identifier(&mut self)
        requires
            old(self).inv(),
            old(self).start + 1 == old(self).current,
            old(self).current <= old(self).source@.len(),
            is_alpha(old(self).source@[old(self).start as int]),
        ensures
            final(self).inv(),
            old(self).steps_to(final(self), old(self).start as int),
    {
        let ghost src = self.source@;
        while self.current < self.source.len() && Self::is_alpha_numeric(self.source[self.current])
            invariant
                self.inv(),
                self.source@ == src,
                self.start + 1 <= self.current,
                word_end(src, self.current as int) == word_end(src, self.start + 1),
                self.tokens == old(self).tokens,
                self.errors == old(self).errors,
                self.line == old(self).line,
                self.start == old(self).start,
            decreases src.len() - self.current,
        {
            self.current = self.current + 1;
        }
        let kind = match keyword_type(&self.source, self.start, self.current) {
            Some(k) => k,
            None => TokenType::Identifier,
        };
        let line = self.line;
        self.add_token(kind, Literal::Null, line);
    }

    fn number(&mut self)
        requires
            old(self).inv(),
            old(self).start + 1 == old(self).current,
            old(self).current <= old(self).source@.len(),
            is_digit(old(self).source@[old(self).start as int]),
        ensures
            final(self).inv(),
            old(self).steps_to(final(self), old(self).start as int),
    {
        let ghost src = self.source@;
        while self.current < self.source.len() && Self::is_digit(self.source[self.current])
            invariant
                self.inv(),
                self.source@ == src,
                self.start + 1 <= self.current,
                digits_end(src, self.current as int) == digits_end(src, self.start as int),
                self.tokens == old(self).tokens,
                self.errors == old(self).errors,
                self.line == old(self).line,
                self.start == old(self).start,
            decreases src.len() - self.current,
        {
            self.current = self.current + 1;
        }
        if self.current + 1 < self.source.len() && self.source[self.current] == '.'
            && Self::is_digit(self.source[self.current + 1]) {
            self.current = self.current + 1;
            let ghost whole = self.current;
            while self.current < self.source.len() && Self::is_digit(self.source[self.current])
                invariant
                    self.inv(),
                    self.source@ == src,
                    whole <= self.current,
                    digits_end(src, self.current as int) == digits_end(src, whole as int),
                    self.tokens == old(self).tokens,
                    self.errors == old(self).errors,
                    self.line == old(self).line,
                    self.start == old(self).start,
                decreases src.len() - self.current,
            {
                self.current = self.current + 1;
            }
        }
        let text = String::from_str(self.text.as_str().substring_char(self.start, self.current));
        let line = self.line;
        self.add_token(TokenType::Number, Literal::Number(text), line);
    }

    fn string(&mut self)
        requires
            old(self).inv(),
            old(self).start + 1 == old(self).current,
            old(self).current <= old(self).source@.len(),
            old(self).source@[old(self).start as int] == '"',
        ensures
            final(self).inv(),
            old(self).steps_to(final(self), old(self).start as int),
    {
        let ghost src = self.source@;
        let line = self.line;
        while self.current < self.source.len() && self.source[self.current] != '"'
            invariant
                self.inv(),
                self.source@ == src,
                self.start + 1 <= self.current,
                quote_end(src, self.current as int) == quote_end(src, self.start + 1),
                self.line == line + count_newlines(src.subrange(self.start + 1, self.current as int)),
                self.tokens == old(self).tokens,
                self.errors == old(self).errors,
                line == old(self).line,
                self.start == old(self).start,
            decreases src.len() - self.current,
        {
            assert(src.subrange(self.start + 1, self.current + 1).drop_last() =~= src.subrange(
                self.start + 1,
                self.current as int,
            ));
            if self.source[self.current] == '\n' {
                self.line = self.line + 1;
            }
            self.current = self.current + 1;
        }
        if self.current >= self.source.len() {
            self.error("Unterminated String");
            return;
        }
        self.current = self.current + 1;
        let value = String::from_str(
            self.text.as_str().substring_char(self.start + 1, self.current - 1),
        );
        self.add_token(TokenType::String, Literal::String(value), line);
    }

    /// Consumes the character at the current position.
    fn next_char(&mut self) -> (r: char)
        requires
            old(self).inv(),
            old(self).current < old(self).source@.len(),
        ensures
            final(self).inv(),
            r == old(self).source@[old(self).current as int],
            final(self).current == old(self).current + 1,
            final(self).source == old(self).source,
            final(self).text == old(self).text,
            final(self).tokens == old(self).tokens,
            final(self).errors == old(self).errors,
            final(self).start == old(self).start,
            final(self).line == old(self).line,
    {
        let c = self.source[self.current];
        self.current = self.current + 1;
        c
    }

    /// Consumes the character at the current position when it is `c`.
    fn next_char_matches(&mut self, c: char) -> (r: bool)
        requires
            old(self).inv(),
        ensures
            final(self).inv(),
            r == (old(self).current < old(self).source@.len() && old(self).source@[old(
                self,
            ).current as int] == c),
            final(self).current == old(self).current + if r {
                1int
            } else {
                0int
            },
            final(self).source == old(self).source,
            final(self).text == old(self).text,
            final(self).tokens == old(self).tokens,
            final(self).errors == old(self).errors,
            final(self).start == old(self).start,
            final(self).line == old(self).line,
    {
        if self.current < self.source.len() && self.source[self.current] == c {
            self.current = self.current + 1;
            true
        } else {
            false
        }
    }

    /// Adds a token made of the text from `start` to the current position.
    fn add_token(&mut self, token_type: TokenType, literal: Literal, line: usize)
        requires
            old(self).inv(),
            old(self).start < old(self).current,
        ensures
            final(self).inv(),
            tokens_view(final(self).tokens@) == tokens_view(old(self).tokens@) + seq![
                TokenView {
                    kind: token_type,
                    lexeme: old(self).source@.subrange(
                        old(self).start as int,
                        old(self).current as int,
                    ),
                    literal: literal@,
                    line: line as nat,
                },
            ],
            final(self).source == old(self).source,
            final(self).text == old(self).text,
            final(self).errors == old(self).errors,
            final(self).start == old(self).start,
            final(self).current == old(self).current,
            final(self).line == old(self).line,
    {
        let token = Token::new(
            token_type,
            self.text.as_str().substring_char(self.start, self.current),
            literal,
            line,
        );
        let ghost before = self.tokens@;
        self.tokens.push(token);
        assert(tokens_view(self.tokens@) =~= tokens_view(before) + seq![token@]);
    }

    /// Records an error on the current line.
    fn error(&mut self, message: &str)
        requires
            old(self).inv(),
        ensures
            final(self).inv(),
            errors_view(final(self).errors@) == errors_view(old(self).errors@) + seq![
                ScanErrorView { line: old(self).line as nat, message: message@ },
            ],
            final(self).source == old(self).source,
            final(self).text == old(self).text,
            final(self).tokens == old(self).tokens,
            final(self).start == old(self).start,
            final(self).current == old(self).current,
            final(self).line == old(self).line,
    {
        let ghost before = self.errors@;
        self.errors.push(ScanError { line: self.line, message: String::from_str(message) });
        assert(errors_view(self.errors@) =~= errors_view(before) + seq![
            ScanErrorView { line: self.line as nat, message: message@ },
        ]);
    }

    fn take_tokens(self) -> (r: Vec<Token>)
        ensures
            r == self.tokens,
    {
        self.tokens
    }

    /// Scans `source_code` and returns its tokens, which end with the
    /// end-of-input token.
    pub fn parse(source_code: &str) -> (r: Vec<Token>)
        requires
            source_code@.len() < usize::MAX,
        ensures
            tokens_view(r@) == scan(source_code@).tokens,
    {
        let mut scanner = Scanner::new(source_code);
        scanner.scan_tokens();
        proof {
            assert(tokens_view(Seq::<Token>::empty()) =~= Seq::<TokenView>::empty());
            assert(Seq::<TokenView>::empty() + scan(source_code@).tokens =~= scan(source_code@).tokens);
        }
        scanner.take_tokens()
    }

    /// Scans `source_code` and returns its tokens together with the errors
    /// met on the way.
    pub fn scan(source_code: &str) -> (r: (Vec<Token>, Vec<ScanError>))
        requires
            source_code@.len() < usize::MAX,
        ensures
            tokens_view(r.0@) == scan(source_code@).tokens,
            errors_view(r.1@) == scan(source_code@).errors,
    {
        let mut scanner = Scanner::new(source_code);
        scanner.scan_tokens();
        proof {
            assert(tokens_view(Seq::<Token>::empty()) =~= Seq::<TokenView>::empty());
            assert(errors_view(Seq::<ScanError>::empty()) =~= Seq::<ScanErrorView>::empty());
            assert(Seq::<TokenView>::empty() + scan(source_code@).tokens =~= scan(source_code@).tokens);
            assert(Seq::<ScanErrorView>::empty() + scan(source_code@).errors =~= scan(source_code@).errors);
        }
        (scanner.tokens, scanner.errors)
    }
}

/// Whether the characters from `start` to `end` spell `word`.
fn text_is(chars: &Vec<char>, start: usize, end: usize, word: &str) -> (r: bool)
    requires
        start <= end <= chars@.len(),
    ensures
        r == (chars@.subrange(start as int, end as int) == word@),
{
    let n = word.unicode_len();
    if end - start != n {
        return false;
    }
    let mut i: usize = 0;
    while i < n
        invariant
            i <= n,
            n == word@.len(),
            end - start == n,
            start <= end <= chars@.len(),
            chars@.subrange(start as int, start + i) == word@.take(i as int),
        decreases n - i,
    {
        if chars[start + i] != word.get_char(i) {
            assert(chars@.subrange(start as int, end as int)[i as int] != word@[i as int]);
            return false;
        }
        assert(chars@.subrange(start as int, start + i + 1) =~= word@.take(i + 1));
        i = i + 1;
    }
    assert(word@.take(n as int) =~= word@);
    true
}

/// The reserved word that the characters from `start` to `end` spell, if
/// any.
fn keyword_type(chars: &Vec<char>, start: usize, end: usize) -> (r: Option<TokenType>)
    requires
        start <= end <= chars@.len(),
    ensures
        r == keyword(chars@.subrange(start as int, end as int)),
{
    if text_is(chars, start, end, "and") {
        Some(TokenType::And)
    } else if text_is(chars, start, end, "class") {
        Some(TokenType::Class)
    } else if text_is(chars, start, end, "else") {
        Some(TokenType::Else)
    } else if text_is(chars, start, end, "false") {
        Some(TokenType::False)
    } else if text_is(chars, start, end, "for") {
        Some(TokenType::For)
    } else if text_is(chars, start, end, "fun") {
        Some(TokenType::Fun)
    } else if text_is(chars, start, end, "if") {
        Some(TokenType::If)
    } else if text_is(chars, start, end, "nil") {
        Some(TokenType::Nil)
    } else if text_is(chars, start, end, "or") {
        Some(TokenType::Or)
    } else if text_is(chars, start, end, "print") {
        Some(TokenType::Print)
    } else if text_is(chars, start, end, "return") {
        Some(TokenType::Return)
    } else if text_is(chars, start, end, "super") {
        Some(TokenType::Super)
    } else if text_is(chars, start, end, "this") {
        Some(TokenType::This)
    } else if text_is(chars, start, end, "true") {
        Some(TokenType::True)
    } else if text_is(chars, start, end, "var") {
        Some(TokenType::Var)
    } else if text_is(chars, start, end, "while") {
        Some(TokenType::While)
    } else {
        None
    }
}

} // verus!
