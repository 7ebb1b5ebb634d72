use vstd::prelude::*;

verus! {

/// The ways in which parsing can fail.
#[derive(Clone, Copy, Debug, PartialEq, Eq, Structural)]
pub enum Error {
    /// The text could not be broken into tokens.
    Lex,
    /// An attribute's `#` or `#!` was not followed by a bracketed group.
    ExpectedSquareBrackets,
    /// The input ended in the middle of a syntax tree node.
    UnexpectedEnd,
    /// A token was left over, or stood where no node may begin.
    UnexpectedToken,
    /// A `;` stood where an item was expected.
    ExpectedItem,
}

} // verus!
