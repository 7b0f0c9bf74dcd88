//! Why a policy text or a token-set text was rejected.

use vstd::prelude::*;

verus! {

/// The reasons for which text is rejected. Positions count characters from
/// the start of the text.
#[derive(Debug, Clone, Copy, PartialEq, Eq, Structural, Hash)]
pub enum ParseError {
    /// The text holds nothing but whitespace.
    EmptyInput,
    /// The character at this position cannot stand there.
    UnexpectedCharacter(usize),
    /// The text ended inside a parenthesised group.
    UnterminatedGroup,
    /// A complete expression ended before this position, where more text follows.
    TrailingInput(usize),
    /// A token name was due where the text ended outside any group, or
    /// where a segment of a token-set text is empty.
    EmptyTokenName,
    /// The expression nests deeper, or its tree is higher, than `MAX_DEPTH`.
    NestingTooDeep,
}

} // verus!
