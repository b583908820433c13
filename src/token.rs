use vstd::prelude::*;

verus! {

/// The lexical category of a token.
#[derive(Debug, Clone, Copy, PartialEq, Eq, Structural)]
pub enum TokenKind {
    // Syntax
    Word,
    Semicolon,
    Ampersand,
    Dollar,
    Assign,
    /// Single-quoted text: no interpolation, `'hello world'`.
    OneQuoteStr,
    /// Double-quoted text: may interpolate, `"hello ${planet}"`.
    TwoQuoteStr,
    // Dataflow
    Pipe,
    Redirect,
    // Logical
    Equality,
    Inequality,
    LogicalOr,
    LogicalAnd,
    LogicalNot,
    CatRedirect,
    // Grouping
    LParen,
    RParen,
    LCurly,
    RCurly,
    LSquare,
    RSquare,
    // Types, reserved for numeric literals; the scanner produces none of them.
    TypeInt,
    TypeLong,
    TypeChar,
    TypeFloat,
    TypeDouble,
    // Etc
    Newline,
    Unknown,
    While,
    For,
    If,
    Elif,
    Else,
}

/// A classified unit of text: its kind and the text it carries.
#[derive(Debug, Clone)]
pub struct Token {
    pub kind: TokenKind,
    pub lexeme: String,
}

impl View for Token {
    type V = (TokenKind, Seq<char>);

    open spec fn view(&self) -> (TokenKind, Seq<char>) {
        (self.kind, self.lexeme@)
    }
}

} // verus!
