//! Parsing of Rust source text into a syntax tree.
//!
//! Source text is first broken into tokens by `proc_macro2`'s lexer, the
//! token trees are flattened into a buffer of [`Token`]s in which every
//! delimited group is bracketed by an `Open` and a `Close` entry, and a
//! [`Parse`] implementation reads a syntax tree node off that buffer.
//!
//! The contracts on lexing rest on `proc_macro2` being built without its
//! `proc-macro` feature, as this crate asks for, so that it always uses its
//! own lexer. Cargo unifies features: where another crate of the same build
//! turns that feature on, `proc_macro2` hands text to the compiler's lexer
//! inside a procedural macro, which may give other tokens or panic, and
//! those contracts are then not known to hold.

use vstd::prelude::*;

pub mod error;
pub mod token;
pub mod lexer;
pub mod buffer;
pub mod parse;
pub mod attr;
pub mod item;
pub mod file;
pub mod source;
pub mod laws;

pub use error::Error;
pub use token::{Delimiter, Spacing, Token, TokenView};
pub use attr::{AttrStyle, Attribute};
pub use item::Item;
pub use file::File;
pub use parse::{Parse, parse_tokens};
pub use lexer::tokenize;

use file::FileView;
use token::tokens_view;
use lexer::{lexed, stream_tokens, stream_to_tokens, is_blank};
use parse::{parsed_as, spec_parse_all};
use source::{split_shebang, strip_bom, starts_with_bom, starts_with_shebang, find_line_end};

verus! {

/// Reading a `T` from source text: the text is lexed, and the `T` must use
/// up every token.
pub open spec fn spec_parse_str<T: Parse>(s: Seq<char>) -> Result<T::V, Error> {
    match lexed(s) {
        Some(toks) => spec_parse_all::<T>(toks),
        None => Err(Error::Lex),
    }
}

/// Reading a [`File`] from the content of a file: a leading byte order mark
/// is dropped, a shebang line is kept aside, and the rest is parsed.
pub open spec fn spec_parse_file(s: Seq<char>) -> Result<FileView, Error> {
    let (shebang, body) = split_shebang(s);
    match spec_parse_str::<File>(body) {
        Ok(f) => Ok(FileView { shebang, attrs: f.attrs, items: f.items }),
        Err(e) => Err(e),
    }
}

/// Parses a `proc_macro2` token stream into the chosen syntax tree node.
pub fn parse2<T: Parse>(tokens: proc_macro2::TokenStream) -> (r: Result<T, Error>)
    ensures
        parsed_as(r, spec_parse_all::<T>(stream_tokens(tokens))),
{
    let buf = stream_to_tokens(tokens);
    parse_tokens(&buf)
}

/// Parses a string of Rust code into the chosen syntax tree node.
pub fn parse_str<T: Parse>(s: &str) -> (r: Result<T, Error>)
    ensures
        parsed_as(r, spec_parse_str::<T>(s@)),
        s@.len() > 0 && s@[0] == '\u{feff}' ==> r matches Err(Error::Lex),
        is_blank(s@) ==> parsed_as(r, spec_parse_all::<T>(Seq::empty())),
{
    match tokenize(s) {
        Ok(buf) => {
            proof {
                if is_blank(s@) {
                    assert(tokens_view(buf@) =~= Seq::<TokenView>::empty());
                }
            }
            parse_tokens(&buf)
        },
        Err(e) => Err(e),
    }
}

/// Parses the content of a file of Rust code.
///
/// Unlike `parse_str::<File>`, it discards a leading byte order mark
/// `\u{feff}` and keeps a shebang line such as `#!/usr/bin/env rustx` in
/// [`File::shebang`]; either would make `parse_str` fail.
pub fn parse_file(content: &str) -> (r: Result<File, Error>)
    ensures
        parsed_as(r, spec_parse_file(content@)),
        starts_with_bom(split_shebang(content@).1) ==> (r matches Err(Error::Lex)),
        is_blank(split_shebang(content@).1) ==> match r {
            Ok(f) => f@ == (FileView {
                shebang: split_shebang(content@).0,
                attrs: Seq::empty(),
                items: Seq::empty(),
            }),
            Err(_) => false,
        },
{
    let len = content.unicode_len();
    let start: usize = if len > 0 && content.get_char(0) == '\u{feff}' {
        1
    } else {
        0
    };
    let text = content.substring_char(start, len);
    assert(text@ == strip_bom(content@));
    let tlen = len - start;
    let mut shebang: Option<String> = None;
    let mut body = text;
    if tlen >= 2 && text.get_char(0) == '#' && text.get_char(1) == '!' && !(tlen >= 3
        && text.get_char(2) == '[') {
        assert(starts_with_shebang(text@));
        let e = find_line_end(text);
        proof {
            source::lemma_line_end_bounds(text@, 0);
        }
        shebang = Some(String::from_str(text.substring_char(0, e)));
        body = text.substring_char(e, tlen);
    }
    assert(split_shebang(content@) == (file::opt_string_view(shebang), body@));
    proof {
        if is_blank(body@) {
            let e = Seq::<TokenView>::empty();
            assert(attr::inner_attrs(e, 0, Seq::empty()) == Ok::<(Seq<attr::AttributeView>, int), Error>((Seq::empty(), 0)));
            assert(file::items_from(e, 0, Seq::empty()) == Ok::<(Seq<item::ItemView>, int), Error>((Seq::empty(), 0)));
        }
    }
    match parse_str::<File>(body) {
        Ok(f) => {
            let mut f = f;
            f.shebang = shebang;
            Ok(f)
        },
        Err(e) => Err(e),
    }
}

} // verus!
