//! Moving through a flattened token buffer: finding where a group ends.

use vstd::prelude::*;
use crate::token::{Token, TokenView, tokens_view};

verus! {

/// Scanning from position `i` while inside `depth` open groups: the
/// position just past the `Close` that ends the outermost of them.
pub open spec fn close_after(toks: Seq<TokenView>, i: int, depth: nat) -> Option<int>
    decreases toks.len() - i,
{
    if i < 0 || i >= toks.len() {
        None
    } else {
        match toks[i] {
            TokenView::Open(_) => close_after(toks, i + 1, depth + 1),
            TokenView::Close(_) => if depth <= 1 {
                Some(i + 1)
            } else {
                close_after(toks, i + 1, (depth - 1) as nat)
            },
            _ => close_after(toks, i + 1, depth),
        }
    }
}

/// For the group that opens at `open`, the position just past its `Close`.
pub open spec fn group_end(toks: Seq<TokenView>, open: int) -> Option<int> {
    close_after(toks, open + 1, 1)
}

/// A group ends after the position where the scan starts, and within the
/// buffer.
pub proof fn lemma_close_after_bounds(toks: Seq<TokenView>, i: int, depth: nat)
    ensures
        close_after(toks, i, depth) matches Some(e) ==> i < e <= toks.len(),
    decreases toks.len() - i,
{
    if 0 <= i < toks.len() {
        match toks[i] {
            TokenView::Open(_) => lemma_close_after_bounds(toks, i + 1, depth + 1),
            TokenView::Close(_) => if depth > 1 {
                lemma_close_after_bounds(toks, i + 1, (depth - 1) as nat);
            },
            _ => lemma_close_after_bounds(toks, i + 1, depth),
        }
    }
}

/// The end of the group whose `Open` stands at `open`.
pub fn find_group_end(tokens: &Vec<Token>, open: usize) -> (r: Option<usize>)
    requires
        open < tokens.len(),
    ensures
        match r {
            Some(e) => group_end(tokens_view(tokens@), open as int) == Some(e as int),
            None => group_end(tokens_view(tokens@), open as int) is None,
        },
{
    let ghost toks = tokens_view(tokens@);
    let mut i: usize = open + 1;
    let mut depth: usize = 1;
    while i < tokens.len()
        invariant
            toks == tokens_view(tokens@),
            open < i <= tokens.len(),
            1 <= depth <= i,
            close_after(toks, i as int, depth as nat) == group_end(toks, open as int),
        decreases tokens.len() - i,
    {
        assert(toks[i as int] == tokens@[i as int]@);
        match &tokens[i] {
            Token::Open(_) => {
                depth = depth + 1;
            },
            Token::Close(_) => {
                if depth <= 1 {
                    return Some(i + 1);
                }
                depth = depth - 1;
            },
            _ => {},
        }
        i = i + 1;
    }
    None
}

} // verus!
