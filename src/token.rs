//! Tokens: the unit that the scanner emits and the parser consumes.
use vstd::prelude::*;

verus! {

/// The closed set of token kinds.
#[derive(Debug, Clone, Copy, PartialEq, Eq, Structural)]
pub enum TokenType {
    Unrecognized,
    // Single-character tokens.
    LeftParen,
    RightParen,
    LeftSquareBrace,
    RightSquareBrace,
    LeftCurlyBrace,
    RightCurlyBrace,
    Colon,
    Pipe,
    Backslash,
    Plus,
    Minus,
    Star,
    Slash,
    Dollar,
    Semicolon,
    Comma,
    Underscore,
    // One or two character tokens.
    Equal,
    EqualEqual,
    NotEqual,
    And,
    Or,
    Greater,
    GreaterEq,
    Less,
    LessEq,
    Arrow,
    PipeForwards,
    // Literals.
    LiteralIdentifier,
    LiteralString,
    LiteralChar,
    LiteralNumber,
    // Reserved words.
    True,
    False,
    If,
    Then,
    Else,
    Let,
    In,
    Yield,
    // Markers.
    Comment,
    Ignore,
    Eof,
}

/// A token: its kind, the line it ends on (counting from zero) and its
/// lexeme, the raw source text it was scanned from.
#[derive(Debug)]
pub struct Token {
    pub kind: TokenType,
    pub line: usize,
    pub literal: String,
}

/// What a token is, with its lexeme as a sequence of characters.
pub struct TokenView {
    pub kind: TokenType,
    pub line: nat,
    pub text: Seq<char>,
}

impl View for Token {
    type V = TokenView;

    open spec fn view(&self) -> TokenView {
        TokenView { kind: self.kind, line: self.line as nat, text: self.literal@ }
    }
}

impl Clone for Token {
    fn clone(&self) -> (r: Self)
        ensures
            r == *self,
    {
        Token { kind: self.kind, line: self.line, literal: self.literal.clone() }
    }
}

/// The views of a sequence of tokens.
pub open spec fn token_views(ts: Seq<Token>) -> Seq<TokenView> {
    ts.map_values(|t: Token| t@)
}

} // verus!
