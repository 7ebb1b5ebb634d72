//! A complete file of Rust source: its shebang line, inner attributes and
//! items.

use vstd::prelude::*;
use crate::attr::{Attribute, AttributeView, attrs_view, inner_attrs, parse_inner_attrs};
use crate::error::Error;
use crate::item::{Item, ItemView, items_view, item_at, parse_item, lemma_item_at_advances, lemma_items_view_push};
use crate::parse::Parse;
use crate::token::{Token, TokenView, tokens_view};

verus! {

/// The syntax tree of a file of Rust source.
#[derive(Clone, Debug, PartialEq, Eq)]
pub struct File {
    /// The `#!...` line the file began with, if any.
    pub shebang: Option<String>,
    /// The inner attributes `#![...]` at the top of the file.
    pub attrs: Vec<Attribute>,
    pub items: Vec<Item>,
}

/// The value of a [`File`].
pub struct FileView {
    pub shebang: Option<Seq<char>>,
    pub attrs: Seq<AttributeView>,
    pub items: Seq<ItemView>,
}

/// The value of an optional string.
pub open spec fn opt_string_view(s: Option<String>) -> Option<Seq<char>> {
    match s {
        Some(t) => Some(t@),
        None => None,
    }
}

impl View for File {
    type V = FileView;

    open spec fn view(&self) -> FileView {
        FileView {
            shebang: opt_string_view(self.shebang),
            attrs: attrs_view(self.attrs@),
            items: items_view(self.items@),
        }
    }
}

/// Starting at `pos`, the items up to the end of the buffer, after those
/// already read in `acc`; and the position where they end.
pub open spec fn items_from(toks: Seq<TokenView>, pos: int, acc: Seq<ItemView>) -> Result<
    (Seq<ItemView>, int),
    Error,
>
    decreases toks.len() - pos,
{
    if pos < 0 || pos >= toks.len() {
        Ok((acc, pos))
    } else {
        match item_at(toks, pos) {
            Ok((it, next)) => {
                proof {
                    lemma_item_at_advances(toks, pos);
                }
                items_from(toks, next, acc.push(it))
            },
            Err(e) => Err(e),
        }
    }
}

/// The file that begins at `pos`: inner attributes, then items to the end.
pub open spec fn file_at(toks: Seq<TokenView>, pos: int) -> Result<(FileView, int), Error> {
    match inner_attrs(toks, pos, Seq::empty()) {
        Ok((attrs, p)) => match items_from(toks, p, Seq::empty()) {
            Ok((items, end)) => Ok((FileView { shebang: None, attrs, items }, end)),
            Err(e) => Err(e),
        },
        Err(e) => Err(e),
    }
}

/// Reads the items from `pos` to the end of the buffer.
pub fn parse_items(tokens: &Vec<Token>, pos: usize) -> (r: Result<(Vec<Item>, usize), Error>)
    requires
        pos <= tokens.len(),
    ensures
        match r {
            Ok((v, end)) => items_from(tokens_view(tokens@), pos as int, Seq::empty()) == Ok::<
                (Seq<ItemView>, int),
                Error,
            >((items_view(v@), end as int)),
            Err(e) => items_from(tokens_view(tokens@), pos as int, Seq::empty()) == Err::<
                (Seq<ItemView>, int),
                Error,
            >(e),
        },
{
    let ghost toks = tokens_view(tokens@);
    let mut items: Vec<Item> = Vec::new();
    let mut p: usize = pos;
    assert(items_view(items@) =~= Seq::<ItemView>::empty());
    while p < tokens.len()
        invariant
            toks == tokens_view(tokens@),
            p <= tokens.len(),
            items_from(toks, p as int, items_view(items@)) == items_from(
                toks,
                pos as int,
                Seq::empty(),
            ),
        decreases tokens.len() - p,
    {
        match parse_item(tokens, p) {
            Ok((it, next)) => {
                proof {
                    lemma_item_at_advances(toks, p as int);
                    lemma_items_view_push(items@, it);
                }
                items.push(it);
                p = next;
            },
            Err(e) => {
                return Err(e);
            },
        }
    }
    Ok((items, p))
}

impl Parse for File {
    open spec fn spec_parse(tokens: Seq<TokenView>, pos: int) -> Result<(FileView, int), Error> {
        file_at(tokens, pos)
    }

    fn parse(tokens: &Vec<Token>, pos: usize) -> (r: Result<(File, usize), Error>) {
        let (attrs, p) = match parse_inner_attrs(tokens, pos) {
            Ok(x) => x,
            Err(e) => {
                return Err(e);
            },
        };
        let (items, end) = match parse_items(tokens, p) {
            Ok(x) => x,
            Err(e) => {
                return Err(e);
            },
        };
        Ok((File { shebang: None, attrs, items }, end))
    }
}

} // verus!
