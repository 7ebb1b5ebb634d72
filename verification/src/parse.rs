//! Parsing a syntax tree node off a token buffer.

use vstd::prelude::*;
use crate::error::Error;
use crate::token::{Token, TokenView, tokens_view};

verus! {

/// A syntax tree node that can be read off a token buffer.
///
/// `spec_parse(tokens, pos)` says what reading a node that begins at `pos`
/// gives: the node and the position just past it, or the error.
pub trait Parse: Sized + View {
    spec fn spec_parse(tokens: Seq<TokenView>, pos: int) -> Result<(<Self as View>::V, int), Error>;

    fn parse(tokens: &Vec<Token>, pos: usize) -> (r: Result<(Self, usize), Error>)
        requires
            pos <= tokens.len(),
        ensures
            match r {
                Ok((v, end)) => Self::spec_parse(tokens_view(tokens@), pos as int) == Ok::<
                    (<Self as View>::V, int),
                    Error,
                >((v@, end as int)),
                Err(e) => Self::spec_parse(tokens_view(tokens@), pos as int) == Err::<
                    (<Self as View>::V, int),
                    Error,
                >(e),
            },
    ;
}

/// Whether the outcome `r` of a parse is, by value, the outcome `s`.
pub open spec fn parsed_as<T: View>(r: Result<T, Error>, s: Result<T::V, Error>) -> bool {
    match r {
        Ok(v) => s == Ok::<T::V, Error>(v@),
        Err(e) => s == Err::<T::V, Error>(e),
    }
}

/// Reading a `T` off the whole of a token buffer: a node that does not use
/// up every token is refused.
pub open spec fn spec_parse_all<T: Parse>(toks: Seq<TokenView>) -> Result<T::V, Error> {
    match T::spec_parse(toks, 0) {
        Ok((v, end)) => if end == toks.len() {
            Ok(v)
        } else {
            Err(Error::UnexpectedToken)
        },
        Err(e) => Err(e),
    }
}

/// Reads a `T` off the whole of a token buffer.
pub fn parse_tokens<T: Parse>(tokens: &Vec<Token>) -> (r: Result<T, Error>)
    ensures
        parsed_as(r, spec_parse_all::<T>(tokens_view(tokens@))),
{
    match T::parse(tokens, 0) {
        Ok((v, end)) => if end == tokens.len() {
            Ok(v)
        } else {
            Err(Error::UnexpectedToken)
        },
        Err(e) => Err(e),
    }
}

} // verus!
