use vstd::prelude::*;

verus! {

/// The kind of a token.
#[derive(PartialEq, Eq, Copy, Clone, Debug, Structural)]
pub enum TokenType {
    // Single-character tokens.
    LeftParen,
    RightParen,
    LeftBrace,
    RightBrace,
    Comma,
    Dot,
    Minus,
    Plus,
    Semicolon,
    Slash,
    Star,
    // One or two character tokens.
    Bang,
    BangEqual,
    Equal,
    EqualEqual,
    Greater,
    GreaterEqual,
    Less,
    LessEqual,
    // Literals.
    Identifier,
    String,
    Number,
    // Keywords.
    And,
    Class,
    Else,
    False,
    Fun,
    For,
    If,
    Nil,
    Or,
    Print,
    Return,
    Super,
    This,
    True,
    Var,
    While,
    // End of input.
    EOF,
}

/// The payload of a token: the text between the quotes of a string, the
/// decimal text of a number, or nothing.
#[derive(Clone, PartialEq, Debug)]
pub enum Literal {
    String(String),
    Number(String),
    Null,
}

/// What a literal payload holds, as characters.
pub enum LiteralView {
    Str(Seq<char>),
    Number(Seq<char>),
    Null,
}

impl View for Literal {
    type V = LiteralView;

    open spec fn view(&self) -> LiteralView {
        match self {
            Literal::String(s) => LiteralView::Str(s@),
            Literal::Number(n) => LiteralView::Number(n@),
            Literal::Null => LiteralView::Null,
        }
    }
}

/// The text a literal payload shows: a string's content, a number's
/// decimal text, or `None`.
pub open spec fn literal_text(l: LiteralView) -> Seq<char> {
    match l {
        LiteralView::Str(s) => s,
        LiteralView::Number(n) => n,
        LiteralView::Null => "None"@,
    }
}

impl Literal {
    /// A copy of the payload.
    pub fn duplicate(&self) -> (r: Literal)
        ensures
            r@ == self@,
    {
        match self {
            Literal::String(s) => Literal::String(s.clone()),
            Literal::Number(n) => Literal::Number(n.clone()),
            Literal::Null => Literal::Null,
        }
    }

    /// The text of the payload (see `literal_text`).
    pub fn to_string(&self) -> (r: String)
        ensures
            r@ == literal_text(self@),
    {
        match self {
            Literal::String(s) => s.clone(),
            Literal::Number(n) => n.clone(),
            Literal::Null => String::from_str("None"),
        }
    }
}

/// A token: its kind, the source text it was scanned from, its payload and
/// the line on which it began.
#[derive(Clone, PartialEq, Debug)]
pub struct Token {
    token_type: TokenType,
    lexeme: String,
    literal: Literal,
    line: usize,
}

/// The abstract value of a token.
pub struct TokenView {
    pub kind: TokenType,
    pub lexeme: Seq<char>,
    pub literal: LiteralView,
    pub line: nat,
}

impl View for Token {
    type V = TokenView;

    closed spec fn view(&self) -> TokenView {
        TokenView {
            kind: self.token_type,
            lexeme: self.lexeme@,
            literal: self.literal@,
            line: self.line as nat,
        }
    }
}

/// The views of a sequence of tokens.
pub open spec fn tokens_view(tokens: Seq<Token>) -> Seq<TokenView> {
    tokens.map_values(|t: Token| t@)
}

/// How a token shows itself: `EOF` for the end of input, the payload for a
/// string or a number, and the source text for anything else.
pub open spec fn token_text(t: TokenView) -> Seq<char> {
    match t.kind {
        TokenType::EOF => "EOF"@,
        TokenType::String | TokenType::Number => literal_text(t.literal),
        _ => t.lexeme,
    }
}

impl Token {
    pub fn new(token_type: TokenType, lexeme: &str, literal: Literal, line: usize) -> (r: Token)
        ensures
            r@ == (TokenView { kind: token_type, lexeme: lexeme@, literal: literal@, line: line as nat }),
    {
        Token { token_type, lexeme: String::from_str(lexeme), literal, line }
    }

    pub fn token_type(&self) -> (r: TokenType)
        ensures
            r == self@.kind,
    {
        self.token_type
    }

    pub fn lexeme(&self) -> (r: &str)
        ensures
            r@ == self@.lexeme,
    {
        self.lexeme.as_str()
    }

    pub fn literal(&self) -> (r: &Literal)
        ensures
            r@ == self@.literal,
    {
        &self.literal
    }

    pub fn line(&self) -> (r: usize)
        ensures
            r == self@.line,
    {
        self.line
    }

    /// A copy of the token.
    pub fn duplicate(&self) -> (r: Token)
        ensures
            r@ == self@,
    {
        Token {
            token_type: self.token_type,
            lexeme: self.lexeme.clone(),
            literal: self.literal.duplicate(),
            line: self.line,
        }
    }

    /// The token as it shows itself (see `token_text`).
    pub fn to_string(&self) -> (r: String)
        ensures
            r@ == token_text(self@),
    {
        match self.token_type {
            TokenType::EOF => String::from_str("EOF"),
            TokenType::String | TokenType::Number => self.literal.to_string(),
            _ => self.lexeme.clone(),
        }
    }
}

/// A sequence of tokens that shows itself as the tokens' texts joined by
/// single spaces.
#[derive(Debug)]
pub struct TokenStream(pub Vec<Token>);

/// The texts of `tokens`, each but the first preceded by a space.
pub open spec fn joined_text(tokens: Seq<TokenView>) -> Seq<char>
    decreases tokens.len(),
{
    if tokens.len() == 0 {
        Seq::empty()
    } else if tokens.len() == 1 {
        token_text(tokens[0])
    } else {
        joined_text(tokens.drop_last()) + " "@ + token_text(tokens.last())
    }
}

impl From<Vec<Token>> for TokenStream {
    fn from(value: Vec<Token>) -> (r: TokenStream)
        ensures
            r.0@ == value@,
    {
        TokenStream(value)
    }
}

impl vstd::std_specs::convert::FromSpecImpl<Vec<Token>> for TokenStream {
    open spec fn obeys_from_spec() -> bool {
        true
    }

    open spec fn from_spec(v: Vec<Token>) -> TokenStream {
        TokenStream(v)
    }
}

impl TokenStream {
    /// The tokens' texts joined by single spaces.
    pub fn to_string(&self) -> (r: String)
        ensures
            r@ == joined_text(tokens_view(self.0@)),
    {
        let mut out = String::new();
        let mut i: usize = 0;
        while i < self.0.len()
            invariant
                i <= self.0@.len(),
                out@ == joined_text(tokens_view(self.0@).take(i as int)),
            decreases self.0@.len() - i,
        {
            let ghost views = tokens_view(self.0@);
            assert(views.take(i + 1).drop_last() =~= views.take(i as int));
            if i > 0 {
                out.append(" ");
            }
            let text = self.0[i].to_string();
            out.append(text.as_str());
            i = i + 1;
        }
        assert(tokens_view(self.0@).take(self.0@.len() as int) =~= tokens_view(self.0@));
        out
    }
}

} // verus!
