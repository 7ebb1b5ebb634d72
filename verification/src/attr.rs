//! Attributes: `#[...]` on the item that follows, `#![...]` on the
//! enclosing file.

use vstd::prelude::*;
use crate::buffer::{group_end, lemma_close_after_bounds, find_group_end};
use crate::error::Error;
use crate::token::{Delimiter, Token, TokenView, tokens_view, is_punct, copy_range};

verus! {

/// Whether an attribute applies to what follows it or to what encloses it.
#[derive(Clone, Copy, Debug, PartialEq, Eq, Structural)]
pub enum AttrStyle {
    /// `#[...]`
    Outer,
    /// `#![...]`
    Inner,
}

/// An attribute, with the tokens between its square brackets.
#[derive(Clone, Debug, PartialEq, Eq)]
pub struct Attribute {
    pub style: AttrStyle,
    pub tokens: Vec<Token>,
}

/// The value of an [`Attribute`].
pub struct AttributeView {
    pub style: AttrStyle,
    pub tokens: Seq<TokenView>,
}

impl View for Attribute {
    type V = AttributeView;

    open spec fn view(&self) -> AttributeView {
        AttributeView { style: self.style, tokens: tokens_view(self.tokens@) }
    }
}

/// The values of a sequence of attributes.
pub open spec fn attrs_view(v: Seq<Attribute>) -> Seq<AttributeView> {
    v.map_values(|a: Attribute| a@)
}

/// Pushing an attribute pushes its value.
pub proof fn lemma_attrs_view_push(v: Seq<Attribute>, a: Attribute)
    ensures
        attrs_view(v.push(a)) == attrs_view(v).push(a@),
{
    assert(attrs_view(v.push(a)) =~= attrs_view(v).push(a@));
}

/// The bracketed part of an attribute, which must begin at `p`: the
/// attribute and the position just past its `]`.
pub open spec fn attr_body(toks: Seq<TokenView>, p: int, style: AttrStyle) -> Result<
    (AttributeView, int),
    Error,
> {
    if 0 <= p < toks.len() && toks[p] == TokenView::Open(Delimiter::Bracket) {
        match group_end(toks, p) {
            Some(e) => Ok((AttributeView { style, tokens: toks.subrange(p + 1, e - 1) }, e)),
            None => Err(Error::UnexpectedEnd),
        }
    } else {
        Err(Error::ExpectedSquareBrackets)
    }
}

/// A successful attribute ends after it began.
pub proof fn lemma_attr_body_advances(toks: Seq<TokenView>, p: int, style: AttrStyle)
    ensures
        attr_body(toks, p, style) matches Ok((_, e)) ==> p < e <= toks.len(),
{
    lemma_close_after_bounds(toks, p + 1, 1);
}

/// Starting at `pos`, the inner attributes `#![...]` that follow one
/// another, after those already read in `acc`; and the position after them.
pub open spec fn inner_attrs(toks: Seq<TokenView>, pos: int, acc: Seq<AttributeView>) -> Result<
    (Seq<AttributeView>, int),
    Error,
>
    decreases toks.len() - pos,
{
    if 0 <= pos && pos + 1 < toks.len() && is_punct(toks[pos], '#') && is_punct(toks[pos + 1], '!') {
        match attr_body(toks, pos + 2, AttrStyle::Inner) {
            Ok((a, next)) => {
                proof {
                    lemma_attr_body_advances(toks, pos + 2, AttrStyle::Inner);
                }
                inner_attrs(toks, next, acc.push(a))
            },
            Err(e) => Err(e),
        }
    } else {
        Ok((acc, pos))
    }
}

/// Starting at `pos`, the outer attributes `#[...]` that follow one another,
/// after those already read in `acc`; and the position after them.
pub open spec fn outer_attrs(toks: Seq<TokenView>, pos: int, acc: Seq<AttributeView>) -> Result<
    (Seq<AttributeView>, int),
    Error,
>
    decreases toks.len() - pos,
{
    if 0 <= pos < toks.len() && is_punct(toks[pos], '#') {
        match attr_body(toks, pos + 1, AttrStyle::Outer) {
            Ok((a, next)) => {
                proof {
                    lemma_attr_body_advances(toks, pos + 1, AttrStyle::Outer);
                }
                outer_attrs(toks, next, acc.push(a))
            },
            Err(e) => Err(e),
        }
    } else {
        Ok((acc, pos))
    }
}

/// Reads the bracketed part of an attribute, which must begin at `p`.
pub fn parse_attr_body(tokens: &Vec<Token>, p: usize, style: AttrStyle) -> (r: Result<
    (Attribute, usize),
    Error,
>)
    requires
        p <= tokens.len(),
    ensures
        match r {
            Ok((a, e)) => attr_body(tokens_view(tokens@), p as int, style) == Ok::<
                (AttributeView, int),
                Error,
            >((a@, e as int)),
            Err(err) => attr_body(tokens_view(tokens@), p as int, style) == Err::<
                (AttributeView, int),
                Error,
            >(err),
        },
{
    let ghost toks = tokens_view(tokens@);
    if p < tokens.len() {
        assert(toks[p as int] == tokens@[p as int]@);
        let is_bracket = match &tokens[p] {
            Token::Open(d) => *d == Delimiter::Bracket,
            _ => false,
        };
        if is_bracket {
            match find_group_end(tokens, p) {
                Some(e) => {
                    proof {
                        lemma_close_after_bounds(toks, p + 1, 1);
                    }
                    let inner = copy_range(tokens, p + 1, e - 1);
                    let a = Attribute { style, tokens: inner };
                    assert(a@ == AttributeView { style, tokens: toks.subrange(p + 1, e - 1) });
                    return Ok((a, e));
                },
                None => {
                    return Err(Error::UnexpectedEnd);
                },
            }
        }
    }
    Err(Error::ExpectedSquareBrackets)
}

/// Reads the inner attributes that follow one another from `pos`.
pub fn parse_inner_attrs(tokens: &Vec<Token>, pos: usize) -> (r: Result<
    (Vec<Attribute>, usize),
    Error,
>)
    requires
        pos <= tokens.len(),
    ensures
        match r {
            Ok((v, end)) => inner_attrs(tokens_view(tokens@), pos as int, Seq::empty()) == Ok::<
                (Seq<AttributeView>, int),
                Error,
            >((attrs_view(v@), end as int)) && end <= tokens.len(),
            Err(e) => inner_attrs(tokens_view(tokens@), pos as int, Seq::empty()) == Err::<
                (Seq<AttributeView>, int),
                Error,
            >(e),
        },
{
    let ghost toks = tokens_view(tokens@);
    let mut attrs: Vec<Attribute> = Vec::new();
    let mut p: usize = pos;
    assert(attrs_view(attrs@) =~= Seq::<AttributeView>::empty());
    loop
        invariant
            toks == tokens_view(tokens@),
            p <= tokens.len(),
            inner_attrs(toks, p as int, attrs_view(attrs@)) == inner_attrs(
                toks,
                pos as int,
                Seq::empty(),
            ),
        decreases tokens.len() - p,
    {
        if p < tokens.len() && p + 1 < tokens.len() && tokens[p].is_punct('#') && tokens[p
            + 1].is_punct('!') {
            assert(toks[p as int] == tokens@[p as int]@);
            assert(toks[p + 1] == tokens@[p + 1]@);
            match parse_attr_body(tokens, p + 2, AttrStyle::Inner) {
                Ok((a, next)) => {
                    proof {
                        lemma_attr_body_advances(toks, p + 2, AttrStyle::Inner);
                        lemma_attrs_view_push(attrs@, a);
                    }
                    attrs.push(a);
                    p = next;
                },
                Err(e) => {
                    return Err(e);
                },
            }
        } else {
            proof {
                if p + 1 < tokens.len() {
                    assert(toks[p as int] == tokens@[p as int]@);
                    assert(toks[p + 1] == tokens@[p + 1]@);
                }
            }
            return Ok((attrs, p));
        }
    }
}

/// Reads the outer attributes that follow one another from `pos`.
pub fn parse_outer_attrs(tokens: &Vec<Token>, pos: usize) -> (r: Result<
    (Vec<Attribute>, usize),
    Error,
>)
    requires
        pos <= tokens.len(),
    ensures
        match r {
            Ok((v, end)) => outer_attrs(tokens_view(tokens@), pos as int, Seq::empty()) == Ok::<
                (Seq<AttributeView>, int),
                Error,
            >((attrs_view(v@), end as int)) && end <= tokens.len(),
            Err(e) => outer_attrs(tokens_view(tokens@), pos as int, Seq::empty()) == Err::<
                (Seq<AttributeView>, int),
                Error,
            >(e),
        },
{
    let ghost toks = tokens_view(tokens@);
    let mut attrs: Vec<Attribute> = Vec::new();
    let mut p: usize = pos;
    assert(attrs_view(attrs@) =~= Seq::<AttributeView>::empty());
    loop
        invariant
            toks == tokens_view(tokens@),
            p <= tokens.len(),
            outer_attrs(toks, p as int, attrs_view(attrs@)) == outer_attrs(
                toks,
                pos as int,
                Seq::empty(),
            ),
        decreases tokens.len() - p,
    {
        if p < tokens.len() && tokens[p].is_punct('#') {
            assert(toks[p as int] == tokens@[p as int]@);
            match parse_attr_body(tokens, p + 1, AttrStyle::Outer) {
                Ok((a, next)) => {
                    proof {
                        lemma_attr_body_advances(toks, p + 1, AttrStyle::Outer);
                        lemma_attrs_view_push(attrs@, a);
                    }
                    attrs.push(a);
                    p = next;
                },
                Err(e) => {
                    return Err(e);
                },
            }
        } else {
            proof {
                if p < tokens.len() {
                    assert(toks[p as int] == tokens@[p as int]@);
                }
            }
            return Ok((attrs, p));
        }
    }
}

} // verus!
