use vstd::prelude::*;

use crate::token::TokenKind;

verus! {

/// Binding power of an operator token, from weakest to strongest. The
/// parser keeps extending a left-hand expression while the binding power of
/// the next token exceeds the current floor.
#[derive(Clone, Copy, Debug, PartialEq, Eq, Structural)]
pub enum Precedence {
    Lowest,
    Equality,
    Comparison,
    Sum,
    Product,
    Order,
    Group,
    Prefix,
}

impl Precedence {
    /// The rank of this level in the total order `Lowest < Equality <
    /// Comparison < Sum < Product < Order < Group < Prefix`.
    pub open spec fn spec_level(self) -> nat {
        match self {
            Precedence::Lowest => 0,
            Precedence::Equality => 1,
            Precedence::Comparison => 2,
            Precedence::Sum => 3,
            Precedence::Product => 4,
            Precedence::Order => 5,
            Precedence::Group => 6,
            Precedence::Prefix => 7,
        }
    }

    /// The rank of this level, for comparing two levels.
    pub fn level(&self) -> (n: u8)
        ensures
            n == self.spec_level(),
    {
        match self {
            Precedence::Lowest => 0,
            Precedence::Equality => 1,
            Precedence::Comparison => 2,
            Precedence::Sum => 3,
            Precedence::Product => 4,
            Precedence::Order => 5,
            Precedence::Group => 6,
            Precedence::Prefix => 7,
        }
    }

    /// The binding power of a token kind. A `.` binds at the block level,
    /// so a trailing call reaches its receiver; tokens that continue no
    /// expression map to the lowest level, so the parser's extension loop
    /// stops on them.
    pub open spec fn spec_of(kind: TokenKind) -> Precedence {
        match kind {
            TokenKind::DoubleEquals | TokenKind::NotEquals => Precedence::Equality,
            TokenKind::LessThan
            | TokenKind::GreaterThan
            | TokenKind::LessThanOrEqual
            | TokenKind::GreaterThanOrEqual => Precedence::Comparison,
            TokenKind::Plus | TokenKind::Minus => Precedence::Sum,
            TokenKind::Asterisk | TokenKind::Slash => Precedence::Product,
            TokenKind::Caret => Precedence::Order,
            TokenKind::LBrace => Precedence::Group,
            TokenKind::Dot => Precedence::Group,
            _ => Precedence::Lowest,
        }
    }

    /// The binding power of a token kind.
    pub fn of(kind: &TokenKind) -> (p: Precedence)
        ensures
            p == Precedence::spec_of(*kind),
    {
        match kind {
            TokenKind::DoubleEquals | TokenKind::NotEquals => Precedence::Equality,
            TokenKind::LessThan
            | TokenKind::GreaterThan
            | TokenKind::LessThanOrEqual
            | TokenKind::GreaterThanOrEqual => Precedence::Comparison,
            TokenKind::Plus | TokenKind::Minus => Precedence::Sum,
            TokenKind::Asterisk | TokenKind::Slash => Precedence::Product,
            TokenKind::Caret => Precedence::Order,
            TokenKind::LBrace => Precedence::Group,
            TokenKind::Dot => Precedence::Group,
            _ => Precedence::Lowest,
        }
    }
}

} // verus!
