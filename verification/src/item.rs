//! Items, kept as their outer attributes and the verbatim tokens of the item
//! itself.
//!
//! An item begins, after its outer attributes and an optional visibility
//! `pub` or `pub(...)`, with an item keyword and the tokens that keyword
//! calls for (see [`item_kind`]), or with the path of a macro invocation
//! followed by `!`; anything else is not an item.
//!
//! `const` and `static` items, type aliases and `use` declarations run up to
//! and including the first `;` at their top level, whatever braces they hold
//! (as in `const C: u8 = if a { 1 } else { 2 };`). Every other item (a
//! function, `impl`, module, trait, struct, enum, union, `extern` block or
//! crate, or macro invocation) runs up to and including the first `;` or the
//! first `{ ... }` group at its top level.

use vstd::prelude::*;
use crate::attr::{Attribute, AttributeView, attrs_view, outer_attrs, parse_outer_attrs, attr_body, lemma_attr_body_advances};
use crate::buffer::{group_end, lemma_close_after_bounds, find_group_end};
use crate::error::Error;
use crate::token::{Delimiter, Spacing, Token, TokenView, tokens_view, is_punct, copy_range};

verus! {

/// An item: its outer attributes and its verbatim tokens.
#[derive(Clone, Debug, PartialEq, Eq)]
pub struct Item {
    pub attrs: Vec<Attribute>,
    pub tokens: Vec<Token>,
}

/// The value of an [`Item`].
pub struct ItemView {
    pub attrs: Seq<AttributeView>,
    pub tokens: Seq<TokenView>,
}

impl View for Item {
    type V = ItemView;

    open spec fn view(&self) -> ItemView {
        ItemView { attrs: attrs_view(self.attrs@), tokens: tokens_view(self.tokens@) }
    }
}

/// The values of a sequence of items.
pub open spec fn items_view(v: Seq<Item>) -> Seq<ItemView> {
    v.map_values(|it: Item| it@)
}

/// Pushing an item pushes its value.
pub proof fn lemma_items_view_push(v: Seq<Item>, it: Item)
    ensures
        items_view(v.push(it)) == items_view(v).push(it@),
{
    assert(items_view(v.push(it)) =~= items_view(v).push(it@));
}

/// Whether `t` is the identifier `name`.
pub open spec fn is_kw(t: TokenView, name: Seq<char>) -> bool {
    t matches TokenView::Ident(s) && s == name
}

/// The position after the visibility `pub` or `pub(...)` at `p`, if there
/// is one; otherwise `p`.
pub open spec fn after_vis(toks: Seq<TokenView>, p: int) -> int {
    if 0 <= p < toks.len() && is_kw(toks[p], "pub"@) {
        if p + 1 < toks.len() && toks[p + 1] == TokenView::Open(Delimiter::Parenthesis) {
            match group_end(toks, p + 1) {
                Some(e) => e,
                None => p + 1,
            }
        } else {
            p + 1
        }
    } else {
        p
    }
}

/// Whether a path separator `::` stands at `i`.
pub open spec fn is_path_sep(toks: Seq<TokenView>, i: int) -> bool {
    0 <= i && i + 1 < toks.len() && toks[i] == TokenView::Punct(':', Spacing::Joint) && is_punct(
        toks[i + 1],
        ':',
    )
}

/// Whether, from `i`, the tokens are `ident (:: ident)* !`.
pub open spec fn macro_path_from(toks: Seq<TokenView>, i: int) -> bool
    decreases toks.len() - i,
{
    if 0 <= i < toks.len() && toks[i] is Ident {
        if i + 1 < toks.len() && is_punct(toks[i + 1], '!') {
            true
        } else if is_path_sep(toks, i + 1) {
            macro_path_from(toks, i + 3)
        } else {
            false
        }
    } else {
        false
    }
}

/// Whether the path of a macro invocation, with an optional leading `::`,
/// and its `!` stand at `p`.
pub open spec fn macro_path(toks: Seq<TokenView>, p: int) -> bool {
    if is_path_sep(toks, p) {
        macro_path_from(toks, p + 2)
    } else {
        macro_path_from(toks, p)
    }
}

/// Whether `t`, after `const`, makes a `const fn`.
pub open spec fn is_fn_qualifier(t: TokenView) -> bool {
    is_kw(t, "fn"@) || is_kw(t, "unsafe"@) || is_kw(t, "async"@) || is_kw(t, "extern"@)
}

/// The item's name must stand at `i`; if it does, `braces` is the answer.
pub open spec fn name_at(toks: Seq<TokenView>, i: int, braces: bool) -> Result<bool, Error> {
    if i < 0 || i >= toks.len() {
        Err(Error::UnexpectedEnd)
    } else if toks[i] is Ident {
        Ok(braces)
    } else {
        Err(Error::ExpectedItem)
    }
}

/// Checks the head of the item whose keyword or macro path stands at `p`,
/// and says whether a `{ ... }` group at its top level ends it (otherwise
/// only a `;` does).
///
/// `fn`, `struct`, `enum`, `union`, `trait`, `mod`, `type`, `static`, a
/// `const` value and `extern crate` must be followed by a name; `const`,
/// `async` and `unsafe` must qualify a function (or, for `unsafe`, an
/// `impl`, trait or `extern` block); `extern` with an optional ABI string
/// must begin a function or a `{ ... }` block; `impl` and `use` must be
/// followed by more than their body or `;`.
pub open spec fn item_kind(toks: Seq<TokenView>, p: int) -> Result<bool, Error>
    decreases toks.len() - p,
{
    if p < 0 || p >= toks.len() {
        Err(Error::UnexpectedEnd)
    } else {
        let t = toks[p];
        if is_kw(t, "fn"@) || is_kw(t, "struct"@) || is_kw(t, "enum"@) || is_kw(t, "trait"@)
            || is_kw(t, "mod"@) {
            name_at(toks, p + 1, true)
        } else if is_kw(t, "union"@) && p + 1 < toks.len() && toks[p + 1] is Ident {
            Ok(true)
        } else if is_kw(t, "type"@) || is_kw(t, "static"@) {
            name_at(toks, p + 1, false)
        } else if is_kw(t, "use"@) {
            if p + 1 >= toks.len() {
                Err(Error::UnexpectedEnd)
            } else if is_punct(toks[p + 1], ';') {
                Err(Error::ExpectedItem)
            } else {
                Ok(false)
            }
        } else if is_kw(t, "const"@) {
            if p + 1 < toks.len() && is_fn_qualifier(toks[p + 1]) {
                item_kind(toks, p + 1)
            } else {
                name_at(toks, p + 1, false)
            }
        } else if is_kw(t, "async"@) || is_kw(t, "unsafe"@) {
            if p + 1 >= toks.len() {
                Err(Error::UnexpectedEnd)
            } else if is_kw(toks[p + 1], "fn"@) || is_kw(toks[p + 1], "unsafe"@) || (is_kw(
                t,
                "unsafe"@,
            ) && (is_kw(toks[p + 1], "impl"@) || is_kw(toks[p + 1], "trait"@) || is_kw(
                toks[p + 1],
                "extern"@,
            ))) {
                item_kind(toks, p + 1)
            } else {
                Err(Error::ExpectedItem)
            }
        } else if is_kw(t, "extern"@) {
            if p + 1 < toks.len() && is_kw(toks[p + 1], "crate"@) {
                name_at(toks, p + 2, false)
            } else {
                let q = if p + 1 < toks.len() && toks[p + 1] is Literal {
                    p + 2
                } else {
                    p + 1
                };
                if q >= toks.len() {
                    Err(Error::UnexpectedEnd)
                } else if is_kw(toks[q], "fn"@) {
                    item_kind(toks, q)
                } else if toks[q] == TokenView::Open(Delimiter::Brace) {
                    Ok(true)
                } else {
                    Err(Error::ExpectedItem)
                }
            }
        } else if is_kw(t, "impl"@) {
            if p + 1 >= toks.len() {
                Err(Error::UnexpectedEnd)
            } else if toks[p + 1] == TokenView::Open(Delimiter::Brace) || is_punct(toks[p + 1], ';') {
                Err(Error::ExpectedItem)
            } else {
                Ok(true)
            }
        } else if macro_path(toks, p) {
            Ok(true)
        } else if t is Close {
            Err(Error::UnexpectedToken)
        } else {
            Err(Error::ExpectedItem)
        }
    }
}

/// Scanning from `i` the body of an item: the position just past the item.
/// `braces` says whether a `{ ... }` group at the top level ends it.
pub open spec fn item_end(toks: Seq<TokenView>, i: int, braces: bool) -> Result<int, Error>
    decreases toks.len() - i,
{
    if i < 0 || i >= toks.len() {
        Err(Error::UnexpectedEnd)
    } else {
        match toks[i] {
            TokenView::Punct(c, _) => if c == ';' {
                Ok(i + 1)
            } else {
                item_end(toks, i + 1, braces)
            },
            TokenView::Open(d) => match group_end(toks, i) {
                None => Err(Error::UnexpectedEnd),
                Some(e) => {
                    proof {
                        lemma_close_after_bounds(toks, i + 1, 1);
                    }
                    if braces && d == Delimiter::Brace {
                        Ok(e)
                    } else {
                        item_end(toks, e, braces)
                    }
                },
            },
            TokenView::Close(_) => Err(Error::UnexpectedToken),
            _ => item_end(toks, i + 1, braces),
        }
    }
}

/// The item that begins at `pos`, and the position just past it.
pub open spec fn item_at(toks: Seq<TokenView>, pos: int) -> Result<(ItemView, int), Error> {
    match outer_attrs(toks, pos, Seq::empty()) {
        Ok((attrs, p)) => match item_kind(toks, after_vis(toks, p)) {
            Ok(braces) => match item_end(toks, p, braces) {
                Ok(end) => Ok((ItemView { attrs, tokens: toks.subrange(p, end) }, end)),
                Err(e) => Err(e),
            },
            Err(e) => Err(e),
        },
        Err(e) => Err(e),
    }
}

/// The scan of an item's body ends after where it began, within the buffer.
pub proof fn lemma_item_end_advances(toks: Seq<TokenView>, i: int, braces: bool)
    ensures
        item_end(toks, i, braces) matches Ok(e) ==> i < e <= toks.len(),
    decreases toks.len() - i,
{
    if 0 <= i < toks.len() {
        lemma_close_after_bounds(toks, i + 1, 1);
        match toks[i] {
            TokenView::Punct(c, _) => if c != ';' {
                lemma_item_end_advances(toks, i + 1, braces);
            },
            TokenView::Open(d) => if let Some(e) = group_end(toks, i) {
                if !(braces && d == Delimiter::Brace) {
                    lemma_item_end_advances(toks, e, braces);
                }
            },
            TokenView::Close(_) => {},
            _ => lemma_item_end_advances(toks, i + 1, braces),
        }
    }
}

/// Outer attributes end at or after where they began, within the buffer.
pub proof fn lemma_outer_attrs_bounds(toks: Seq<TokenView>, pos: int, acc: Seq<AttributeView>)
    requires
        0 <= pos <= toks.len(),
    ensures
        outer_attrs(toks, pos, acc) matches Ok((_, p)) ==> pos <= p <= toks.len(),
    decreases toks.len() - pos,
{
    if 0 <= pos < toks.len() && is_punct(toks[pos], '#') {
        lemma_attr_body_advances(toks, pos + 1, crate::attr::AttrStyle::Outer);
        if let Ok((a, next)) = attr_body(toks, pos + 1, crate::attr::AttrStyle::Outer) {
            lemma_outer_attrs_bounds(toks, next, acc.push(a));
        }
    }
}

/// An item ends after where it began, within the buffer.
pub proof fn lemma_item_at_advances(toks: Seq<TokenView>, pos: int)
    requires
        0 <= pos <= toks.len(),
    ensures
        item_at(toks, pos) matches Ok((_, e)) ==> pos < e <= toks.len(),
{
    lemma_outer_attrs_bounds(toks, pos, Seq::empty());
    if let Ok((_, p)) = outer_attrs(toks, pos, Seq::empty()) {
        if let Ok(braces) = item_kind(toks, after_vis(toks, p)) {
            lemma_item_end_advances(toks, p, braces);
        }
    }
}

/// Whether `t` is the identifier `name`.
pub fn ident_is(t: &Token, name: &str) -> (r: bool)
    ensures
        r == is_kw(t@, name@),
{
    match t {
        Token::Ident(s) => {
            let n = String::from_str(name);
            *s == n
        },
        _ => false,
    }
}

/// The position after the visibility at `p`, if there is one.
pub fn skip_visibility(tokens: &Vec<Token>, p: usize) -> (r: usize)
    requires
        p <= tokens.len(),
    ensures
        r == after_vis(tokens_view(tokens@), p as int),
        p <= r <= tokens.len(),
{
    let ghost toks = tokens_view(tokens@);
    if p < tokens.len() && ident_is(&tokens[p], "pub") {
        assert(toks[p as int] == tokens@[p as int]@);
        if p + 1 < tokens.len() {
            assert(toks[p + 1] == tokens@[p + 1]@);
            let is_paren = match &tokens[p + 1] {
                Token::Open(d) => *d == Delimiter::Parenthesis,
                _ => false,
            };
            if is_paren {
                proof {
                    lemma_close_after_bounds(toks, p + 2, 1);
                }
                return match find_group_end(tokens, p + 1) {
                    Some(e) => e,
                    None => p + 1,
                };
            }
        }
        p + 1
    } else {
        proof {
            if p < tokens.len() {
                assert(toks[p as int] == tokens@[p as int]@);
            }
        }
        p
    }
}

/// Whether a path separator `::` stands at `i`.
pub fn at_path_sep(tokens: &Vec<Token>, i: usize) -> (r: bool)
    ensures
        r == is_path_sep(tokens_view(tokens@), i as int),
{
    if i < tokens.len() && i + 1 < tokens.len() {
        assert(tokens_view(tokens@)[i as int] == tokens@[i as int]@);
        assert(tokens_view(tokens@)[i + 1] == tokens@[i + 1]@);
        let joint = match &tokens[i] {
            Token::Punct(c, sp) => *c == ':' && *sp == Spacing::Joint,
            _ => false,
        };
        joint && tokens[i + 1].is_punct(':')
    } else {
        false
    }
}

/// Whether the path of a macro invocation and its `!` stand at `p`.
pub fn at_macro_path(tokens: &Vec<Token>, p: usize) -> (r: bool)
    requires
        p <= tokens.len(),
    ensures
        r == macro_path(tokens_view(tokens@), p as int),
{
    let ghost toks = tokens_view(tokens@);
    let mut i: usize = if at_path_sep(tokens, p) {
        p + 2
    } else {
        p
    };
    loop
        invariant
            toks == tokens_view(tokens@),
            i <= tokens.len(),
            macro_path_from(toks, i as int) == macro_path(toks, p as int),
        decreases tokens.len() - i,
    {
        if i >= tokens.len() {
            return false;
        }
        assert(toks[i as int] == tokens@[i as int]@);
        let is_ident = match &tokens[i] {
            Token::Ident(_) => true,
            _ => false,
        };
        if !is_ident {
            return false;
        }
        if i + 1 < tokens.len() && tokens[i + 1].is_punct('!') {
            assert(toks[i + 1] == tokens@[i + 1]@);
            return true;
        }
        proof {
            if i + 1 < tokens.len() {
                assert(toks[i + 1] == tokens@[i + 1]@);
            }
        }
        if at_path_sep(tokens, i + 1) {
            i = i + 3;
        } else {
            return false;
        }
    }
}

/// Whether the token at `i` is an identifier.
fn ident_at(tokens: &Vec<Token>, i: usize) -> (r: bool)
    requires
        i < tokens.len(),
    ensures
        r == (tokens_view(tokens@)[i as int] is Ident),
{
    assert(tokens_view(tokens@)[i as int] == tokens@[i as int]@);
    match &tokens[i] {
        Token::Ident(_) => true,
        _ => false,
    }
}

/// The item's name must stand at `i`.
fn check_name(tokens: &Vec<Token>, i: usize, braces: bool) -> (r: Result<bool, Error>)
    ensures
        r == name_at(tokens_view(tokens@), i as int, braces),
{
    if i >= tokens.len() {
        Err(Error::UnexpectedEnd)
    } else if ident_at(tokens, i) {
        Ok(braces)
    } else {
        Err(Error::ExpectedItem)
    }
}

/// Checks the head of the item whose keyword or macro path stands at `p`,
/// and says whether a `{ ... }` group at its top level ends it.
pub fn find_item_kind(tokens: &Vec<Token>, p: usize) -> (r: Result<bool, Error>)
    requires
        p <= tokens.len(),
    ensures
        r == item_kind(tokens_view(tokens@), p as int),
    decreases tokens.len() - p,
{
    let ghost toks = tokens_view(tokens@);
    if p >= tokens.len() {
        return Err(Error::UnexpectedEnd);
    }
    assert(toks[p as int] == tokens@[p as int]@);
    let t = &tokens[p];
    let n = p + 1;
    proof {
        if n < tokens.len() {
            assert(toks[n as int] == tokens@[n as int]@);
        }
    }
    if ident_is(t, "fn") || ident_is(t, "struct") || ident_is(t, "enum") || ident_is(t, "trait")
        || ident_is(t, "mod") {
        return check_name(tokens, n, true);
    }
    if ident_is(t, "union") && n < tokens.len() && ident_at(tokens, n) {
        return Ok(true);
    }
    if ident_is(t, "type") || ident_is(t, "static") {
        return check_name(tokens, n, false);
    }
    if ident_is(t, "use") {
        if n >= tokens.len() {
            return Err(Error::UnexpectedEnd);
        }
        if tokens[n].is_punct(';') {
            return Err(Error::ExpectedItem);
        }
        return Ok(false);
    }
    if ident_is(t, "const") {
        if n < tokens.len() {
            let u = &tokens[n];
            if ident_is(u, "fn") || ident_is(u, "unsafe") || ident_is(u, "async") || ident_is(
                u,
                "extern",
            ) {
                return find_item_kind(tokens, n);
            }
        }
        return check_name(tokens, n, false);
    }
    let is_unsafe = ident_is(t, "unsafe");
    if ident_is(t, "async") || is_unsafe {
        if n >= tokens.len() {
            return Err(Error::UnexpectedEnd);
        }
        let u = &tokens[n];
        if ident_is(u, "fn") || ident_is(u, "unsafe") || (is_unsafe && (ident_is(u, "impl")
            || ident_is(u, "trait") || ident_is(u, "extern"))) {
            return find_item_kind(tokens, n);
        }
        return Err(Error::ExpectedItem);
    }
    if ident_is(t, "extern") {
        if n < tokens.len() && ident_is(&tokens[n], "crate") {
            return check_name(tokens, n + 1, false);
        }
        let abi = if n < tokens.len() {
            match &tokens[n] {
                Token::Literal(_) => true,
                _ => false,
            }
        } else {
            false
        };
        let q = if abi {
            n + 1
        } else {
            n
        };
        if q >= tokens.len() {
            return Err(Error::UnexpectedEnd);
        }
        assert(toks[q as int] == tokens@[q as int]@);
        if ident_is(&tokens[q], "fn") {
            return find_item_kind(tokens, q);
        }
        let brace = match &tokens[q] {
            Token::Open(d) => *d == Delimiter::Brace,
            _ => false,
        };
        if brace {
            return Ok(true);
        }
        return Err(Error::ExpectedItem);
    }
    if ident_is(t, "impl") {
        if n >= tokens.len() {
            return Err(Error::UnexpectedEnd);
        }
        let brace = match &tokens[n] {
            Token::Open(d) => *d == Delimiter::Brace,
            _ => false,
        };
        if brace || tokens[n].is_punct(';') {
            return Err(Error::ExpectedItem);
        }
        return Ok(true);
    }
    if at_macro_path(tokens, p) {
        return Ok(true);
    }
    match t {
        Token::Close(_) => Err(Error::UnexpectedToken),
        _ => Err(Error::ExpectedItem),
    }
}

/// Finds the end of the item body that begins at `start`.
pub fn find_item_end(tokens: &Vec<Token>, start: usize, braces: bool) -> (r: Result<usize, Error>)
    requires
        start <= tokens.len(),
    ensures
        match r {
            Ok(e) => item_end(tokens_view(tokens@), start as int, braces) == Ok::<int, Error>(
                e as int,
            ) && start < e <= tokens.len(),
            Err(err) => item_end(tokens_view(tokens@), start as int, braces) == Err::<int, Error>(
                err,
            ),
        },
{
    let ghost toks = tokens_view(tokens@);
    let mut i: usize = start;
    while i < tokens.len()
        invariant
            toks == tokens_view(tokens@),
            start <= i <= tokens.len(),
            item_end(toks, i as int, braces) == item_end(toks, start as int, braces),
        decreases tokens.len() - i,
    {
        assert(toks[i as int] == tokens@[i as int]@);
        match &tokens[i] {
            Token::Punct(c, _) => {
                if *c == ';' {
                    return Ok(i + 1);
                }
                i = i + 1;
            },
            Token::Open(d) => {
                match find_group_end(tokens, i) {
                    None => {
                        return Err(Error::UnexpectedEnd);
                    },
                    Some(e) => {
                        proof {
                            lemma_close_after_bounds(toks, i + 1, 1);
                        }
                        if braces && *d == Delimiter::Brace {
                            return Ok(e);
                        }
                        i = e;
                    },
                }
            },
            Token::Close(_) => {
                return Err(Error::UnexpectedToken);
            },
            _ => {
                i = i + 1;
            },
        }
    }
    Err(Error::UnexpectedEnd)
}

/// Reads the item that begins at `pos`.
pub fn parse_item(tokens: &Vec<Token>, pos: usize) -> (r: Result<(Item, usize), Error>)
    requires
        pos <= tokens.len(),
    ensures
        match r {
            Ok((it, e)) => item_at(tokens_view(tokens@), pos as int) == Ok::<(ItemView, int), Error>(
                (it@, e as int),
            ) && pos < e <= tokens.len(),
            Err(err) => item_at(tokens_view(tokens@), pos as int) == Err::<(ItemView, int), Error>(
                err,
            ),
        },
{
    let (attrs, p) = match parse_outer_attrs(tokens, pos) {
        Ok(x) => x,
        Err(e) => {
            return Err(e);
        },
    };
    proof {
        lemma_outer_attrs_bounds(tokens_view(tokens@), pos as int, Seq::empty());
    }
    let k = skip_visibility(tokens, p);
    let braces = match find_item_kind(tokens, k) {
        Ok(b) => b,
        Err(e) => {
            return Err(e);
        },
    };
    let end = match find_item_end(tokens, p, braces) {
        Ok(e) => e,
        Err(e) => {
            return Err(e);
        },
    };
    let body = copy_range(tokens, p, end);
    Ok((Item { attrs, tokens: body }, end))
}

} // verus!
