//! Tokens, lexical errors, and their mathematical models.
use vstd::prelude::*;

verus! {

/// The class of a token. Literal variants carry their payload as text:
/// `String` holds the characters between the quotes, `Number` the digits as
/// written (their numeric value is the decimal number they denote), and
/// `Identifier` the name.
#[derive(Debug, Clone, PartialEq)]
pub enum TokenType {
    // Single-character tokens.
    LeftParen,
    RightParen,
    LeftBrace,
    RightBrace,
    Comma,
    Dot,
    Minus,
    Plus,
    Semicolon,
    Slash,
    Star,
    // One or two character tokens.
    Bang,
    BangEqual,
    Equal,
    EqualEqual,
    Greater,
    GreaterEqual,
    Less,
    LessEqual,
    // Literals.
    Identifier(String),
    String(String),
    Number(String),
    // Keywords.
    And,
    Class,
    Else,
    False,
    Fun,
    For,
    If,
    Nil,
    Or,
    Print,
    Return,
    Super,
    This,
    True,
    Var,
    While,
    Eof,
}

/// The model of a `TokenType`: the same variants, with text payloads as
/// character sequences.
pub enum Kind {
    LeftParen,
    RightParen,
    LeftBrace,
    RightBrace,
    Comma,
    Dot,
    Minus,
    Plus,
    Semicolon,
    Slash,
    Star,
    Bang,
    BangEqual,
    Equal,
    EqualEqual,
    Greater,
    GreaterEqual,
    Less,
    LessEqual,
    Identifier(Seq<char>),
    Str(Seq<char>),
    Number(Seq<char>),
    And,
    Class,
    Else,
    False,
    Fun,
    For,
    If,
    Nil,
    Or,
    Print,
    Return,
    Super,
    This,
    True,
    Var,
    While,
    Eof,
}

impl View for TokenType {
    type V = Kind;

    open spec fn view(&self) -> Kind {
        match self {
            TokenType::LeftParen => Kind::LeftParen,
            TokenType::RightParen => Kind::RightParen,
            TokenType::LeftBrace => Kind::LeftBrace,
            TokenType::RightBrace => Kind::RightBrace,
            TokenType::Comma => Kind::Comma,
            TokenType::Dot => Kind::Dot,
            TokenType::Minus => Kind::Minus,
            TokenType::Plus => Kind::Plus,
            TokenType::Semicolon => Kind::Semicolon,
            TokenType::Slash => Kind::Slash,
            TokenType::Star => Kind::Star,
            TokenType::Bang => Kind::Bang,
            TokenType::BangEqual => Kind::BangEqual,
            TokenType::Equal => Kind::Equal,
            TokenType::EqualEqual => Kind::EqualEqual,
            TokenType::Greater => Kind::Greater,
            TokenType::GreaterEqual => Kind::GreaterEqual,
            TokenType::Less => Kind::Less,
            TokenType::LessEqual => Kind::LessEqual,
            TokenType::Identifier(s) => Kind::Identifier(s@),
            TokenType::String(s) => Kind::Str(s@),
            TokenType::Number(s) => Kind::Number(s@),
            TokenType::And => Kind::And,
            TokenType::Class => Kind::Class,
            TokenType::Else => Kind::Else,
            TokenType::False => Kind::False,
            TokenType::Fun => Kind::Fun,
            TokenType::For => Kind::For,
            TokenType::If => Kind::If,
            TokenType::Nil => Kind::Nil,
            TokenType::Or => Kind::Or,
            TokenType::Print => Kind::Print,
            TokenType::Return => Kind::Return,
            TokenType::Super => Kind::Super,
            TokenType::This => Kind::This,
            TokenType::True => Kind::True,
            TokenType::Var => Kind::Var,
            TokenType::While => Kind::While,
            TokenType::Eof => Kind::Eof,
        }
    }
}

impl Kind {
    /// Punctuation and operators: the kinds whose lexeme is fixed by the kind.
    pub open spec fn is_punctuation(self) -> bool {
        match self {
            Kind::LeftParen | Kind::RightParen | Kind::LeftBrace | Kind::RightBrace
            | Kind::Comma | Kind::Dot | Kind::Minus | Kind::Plus | Kind::Semicolon
            | Kind::Slash | Kind::Star | Kind::Bang | Kind::BangEqual | Kind::Equal
            | Kind::EqualEqual | Kind::Greater | Kind::GreaterEqual | Kind::Less
            | Kind::LessEqual => true,
            _ => false,
        }
    }
}

/// A classified, positioned unit of source text.
#[derive(Debug, Clone, PartialEq)]
pub struct Token {
    pub kind: TokenType,
    /// The exact source text the token was read from.
    pub lexeme: String,
    /// The 1-based line on which the token's first character stands.
    pub line: usize,
}

/// The model of a `Token`.
pub struct TokenModel {
    pub kind: Kind,
    pub lexeme: Seq<char>,
    pub line: int,
}

impl View for Token {
    type V = TokenModel;

    open spec fn view(&self) -> TokenModel {
        TokenModel { kind: self.kind@, lexeme: self.lexeme@, line: self.line as int }
    }
}

impl Token {
    pub fn new(kind: TokenType, lexeme: String, line: usize) -> (r: Self)
        ensures
            r.kind@ == kind@,
            r.lexeme@ == lexeme@,
            r.line == line,
    {
        Token { kind, lexeme, line }
    }
}

/// What went wrong while scanning.
#[derive(Debug, Clone, Copy, PartialEq, Eq, Structural)]
pub enum LexErrorKind {
    /// A character outside the language's grammar.
    UnexpectedCharacter,
    /// An opening quote with no closing quote before the end of input.
    UnterminatedString,
    /// A numeric literal whose text could not be converted to a number.
    MalformedNumber,
}

impl LexErrorKind {
    pub fn message(&self) -> (r: &'static str)
        ensures
            r@ == self.message_spec()@,
    {
        match self {
            LexErrorKind::UnexpectedCharacter => "Unexpected character",
            LexErrorKind::UnterminatedString => "Unterminated string",
            LexErrorKind::MalformedNumber => "Malformed number",
        }
    }

    pub open spec fn message_spec(&self) -> &'static str {
        match self {
            LexErrorKind::UnexpectedCharacter => "Unexpected character",
            LexErrorKind::UnterminatedString => "Unterminated string",
            LexErrorKind::MalformedNumber => "Malformed number",
        }
    }
}

/// A lexical error and the line on which it was detected.
#[derive(Debug, Clone, Copy, PartialEq, Eq, Structural)]
pub struct LexError {
    pub kind: LexErrorKind,
    pub line: usize,
}

/// The model of a `LexError`.
pub struct LexErrorModel {
    pub kind: LexErrorKind,
    pub line: int,
}

impl View for LexError {
    type V = LexErrorModel;

    open spec fn view(&self) -> LexErrorModel {
        LexErrorModel { kind: self.kind, line: self.line as int }
    }
}

pub open spec fn tokens_view(v: Seq<Token>) -> Seq<TokenModel> {
    v.map_values(|t: Token| t@)
}

pub open spec fn errors_view(v: Seq<LexError>) -> Seq<LexErrorModel> {
    v.map_values(|e: LexError| e@)
}

} // verus!
