use vstd::prelude::*;

use crate::span::Span;

verus! {

/// What a token is, independent of where it stands in the source.
#[derive(Clone, Copy, Debug, PartialEq, Eq, Structural)]
pub enum TokenKind {
    Plus,
    Minus,
    Asterisk,
    Slash,
    Caret,

    LessThan,
    LessThanOrEqual,
    GreaterThan,
    GreaterThanOrEqual,
    DoubleEquals,
    NotEquals,

    LBrace,
    RBrace,
    Exclamation,
    Colon,
    Equals,
    Dot,
    LParen,
    RParen,
    Comma,

    Number,
    Boolean,
    Ident,
    Type,

    Comment,
    Illegal,
    Eof,
}

/// One token: its kind and the span of source text it was read from. The
/// token does not carry its text; the text is always the slice of the
/// source at `span`.
#[derive(Clone, Copy, Debug, PartialEq, Eq, Structural)]
pub struct Token {
    pub kind: TokenKind,
    pub span: Span,
}

impl Token {
    /// A token of `kind` covering `len` characters starting at `position`.
    pub fn new(kind: TokenKind, position: usize, len: usize) -> (t: Token)
        requires
            position + len <= usize::MAX,
        ensures
            t == (Token { kind, span: Span(position, (position + len) as usize) }),
    {
        Token { kind, span: Span(position, position + len) }
    }
}

} // verus!
