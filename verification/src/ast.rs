use vstd::prelude::*;
use vstd::string::*;

use crate::expression::{views_of, ExprView, Expression};
use crate::token::{Token, TokenKind};

verus! {

/// The parser's output: the ordered top-level expressions of one module.
#[derive(Debug)]
pub struct Ast(pub Vec<Expression>);

impl Ast {
    /// The mathematical value of this tree: the views of its top-level
    /// expressions, in order.
    pub open spec fn view(&self) -> Seq<ExprView> {
        views_of(self.0@)
    }
}

/// A syntactic error: the offending token and what would have been
/// acceptable in its place.
#[derive(Debug)]
pub enum AstError {
    NoPrefixParse(Token),
    Expected(Token, Vec<TokenKind>),
    Syntax(Token, String),
    UnexpectedEof,
}

/// The mathematical value of an `AstError`.
pub ghost enum AstErrorView {
    NoPrefixParse(Token),
    Expected(Token, Seq<TokenKind>),
    Syntax(Token, Seq<char>),
    UnexpectedEof,
}

impl AstError {
    /// The mathematical value of this error.
    pub open spec fn view(&self) -> AstErrorView {
        match self {
            AstError::NoPrefixParse(token) => AstErrorView::NoPrefixParse(*token),
            AstError::Expected(token, exp) => AstErrorView::Expected(*token, exp@),
            AstError::Syntax(token, msg) => AstErrorView::Syntax(*token, msg@),
            AstError::UnexpectedEof => AstErrorView::UnexpectedEof,
        }
    }

    /// The message of a syntax error over reason `s`.
    pub open spec fn syntax_msg(s: Seq<char>) -> Seq<char> {
        "syntax error: "@ + s
    }

    /// A token stood where one of the kinds in `exp` was required.
    pub fn expected(token: &Token, exp: Vec<TokenKind>) -> (e: AstError)
        ensures
            e@ == AstErrorView::Expected(*token, exp@),
    {
        AstError::Expected(*token, exp)
    }

    /// A token could not be read as what its kind promises; `s` says why.
    pub fn syntax(token: &Token, s: &str) -> (e: AstError)
        ensures
            e@ == AstErrorView::Syntax(*token, AstError::syntax_msg(s@)),
    {
        AstError::Syntax(*token, String::from_str("syntax error: ").concat(s))
    }

    /// The stream ended where a token was required.
    pub fn eof() -> (e: AstError)
        ensures
            e@ == AstErrorView::UnexpectedEof,
    {
        AstError::UnexpectedEof
    }

    /// No primary parse rule matches the token.
    pub fn no_prefix_parse(token: &Token) -> (e: AstError)
        ensures
            e@ == AstErrorView::NoPrefixParse(*token),
    {
        AstError::NoPrefixParse(*token)
    }
}

} // verus!
