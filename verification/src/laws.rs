//! Properties of parsing that span several functions.

use vstd::prelude::*;
use crate::{spec_parse_file, spec_parse_str};
use crate::attr::{attr_body, inner_attrs, outer_attrs, AttrStyle, AttributeView};
use crate::error::Error;
use crate::file::{File, FileView, file_at, items_from};
use crate::token::Spacing;
use crate::item::{lemma_item_at_advances, lemma_outer_attrs_bounds, lemma_item_end_advances, item_at, item_end, item_kind, after_vis, is_kw, is_fn_qualifier, ItemView};
use crate::buffer::{close_after, group_end, lemma_close_after_bounds};
use crate::attr::lemma_attr_body_advances;
use crate::parse::{Parse, spec_parse_all};
use crate::lexer::{lexed, stream_tokens};
use crate::source::{line_end, lemma_line_end_bounds, split_shebang, starts_with_bom, starts_with_shebang, strip_bom};
use crate::token::{Delimiter, TokenView, is_punct};

verus! {

/// A leading byte order mark makes no difference to `parse_file`.
pub proof fn bom_is_discarded(s: Seq<char>)
    requires
        !starts_with_bom(s),
    ensures
        spec_parse_file(seq!['\u{feff}'] + s) == spec_parse_file(s),
{
    assert(strip_bom(seq!['\u{feff}'] + s) =~= s);
}

/// `parse_file` keeps a shebang line apart: the line and the text that is
/// parsed make up the file's text (without its byte order mark); the line
/// holds no line break and the parsed text starts at one; a file that does
/// not begin with `#!` (other than `#![`) has no shebang line. The text
/// that is parsed never itself begins with a shebang.
pub proof fn shebang_is_kept_apart(s: Seq<char>)
    ensures
        ({
            let (shebang, body) = split_shebang(s);
            let t = strip_bom(s);
            &&& !starts_with_shebang(body)
            &&& match shebang {
                Some(line) => {
                    &&& starts_with_shebang(t)
                    &&& line + body == t
                    &&& forall|i: int| 0 <= i < line.len() ==> line[i] != '\n'
                    &&& body.len() == 0 || body[0] == '\n'
                },
                None => !starts_with_shebang(t) && body == t,
            }
        }),
        spec_parse_file(s) matches Ok(f) ==> f.shebang == split_shebang(s).0,
{
    let t = strip_bom(s);
    if starts_with_shebang(t) {
        let e = line_end(t, 0);
        lemma_line_end_bounds(t, 0);
        lemma_line_end_no_break(t, 0);
        assert(t.take(e) + t.skip(e) =~= t);
        if e < t.len() {
            lemma_line_end_is_break(t, 0);
        }
    }
}

/// Before the end of a line there is no line break.
pub proof fn lemma_line_end_no_break(s: Seq<char>, i: int)
    requires
        0 <= i <= s.len(),
    ensures
        forall|j: int| i <= j < line_end(s, i) ==> s[j] != '\n',
    decreases s.len() - i,
{
    if i < s.len() && s[i] != '\n' {
        lemma_line_end_no_break(s, i + 1);
    }
}

/// A line that ends before the end of the text ends at a line break.
pub proof fn lemma_line_end_is_break(s: Seq<char>, i: int)
    requires
        0 <= i <= s.len(),
        line_end(s, i) < s.len(),
    ensures
        s[line_end(s, i)] == '\n',
    decreases s.len() - i,
{
    if i < s.len() && s[i] != '\n' {
        lemma_line_end_is_break(s, i + 1);
    }
}

/// `parse_str::<File>` never gives a file a shebang line.
pub proof fn parse_str_file_has_no_shebang(s: Seq<char>)
    ensures
        spec_parse_str::<File>(s) matches Ok(f) ==> f.shebang is None,
{
}

/// On text with neither a byte order mark nor a shebang line, `parse_file`
/// and `parse_str::<File>` agree.
pub proof fn parse_file_agrees_with_parse_str(s: Seq<char>)
    requires
        !starts_with_bom(s),
        !starts_with_shebang(s),
    ensures
        spec_parse_file(s) == spec_parse_str::<File>(s),
{
    parse_str_file_has_no_shebang(s);
}

/// Tokens that begin with `#` `!` not followed by a bracketed group, as a
/// shebang line lexes, are refused as a file.
pub proof fn shebang_tokens_are_refused(toks: Seq<TokenView>)
    requires
        toks.len() >= 2,
        is_punct(toks[0], '#'),
        is_punct(toks[1], '!'),
        !(toks.len() > 2 && toks[2] == TokenView::Open(Delimiter::Bracket)),
    ensures
        spec_parse_all::<File>(toks) == Err::<FileView, Error>(Error::ExpectedSquareBrackets),
{
    assert(attr_body(toks, 2, AttrStyle::Inner) == Err::<(crate::attr::AttributeView, int), Error>(
        Error::ExpectedSquareBrackets,
    ));
}

/// The items of a file run to the end of the buffer.
pub proof fn lemma_items_reach_end(toks: Seq<TokenView>, pos: int, acc: Seq<crate::item::ItemView>)
    requires
        0 <= pos <= toks.len(),
    ensures
        items_from(toks, pos, acc) matches Ok((_, end)) ==> end == toks.len(),
    decreases toks.len() - pos,
{
    if pos < toks.len() {
        lemma_item_at_advances(toks, pos);
        if let Ok((it, next)) = crate::item::item_at(toks, pos) {
            lemma_items_reach_end(toks, next, acc.push(it));
        }
    }
}

/// Inner attributes end within the buffer.
pub proof fn lemma_inner_attrs_bounds(toks: Seq<TokenView>, pos: int, acc: Seq<crate::attr::AttributeView>)
    requires
        0 <= pos <= toks.len(),
    ensures
        inner_attrs(toks, pos, acc) matches Ok((_, p)) ==> pos <= p <= toks.len(),
    decreases toks.len() - pos,
{
    if 0 <= pos && pos + 1 < toks.len() && is_punct(toks[pos], '#') && is_punct(toks[pos + 1], '!') {
        lemma_attr_body_advances(toks, pos + 2, AttrStyle::Inner);
        if let Ok((a, next)) = attr_body(toks, pos + 2, AttrStyle::Inner) {
            lemma_inner_attrs_bounds(toks, next, acc.push(a));
        }
    }
}

/// A file always uses up the whole buffer: reading a file off a buffer
/// fails only where reading it from the start fails, never for tokens left
/// over.
pub proof fn file_uses_every_token(toks: Seq<TokenView>)
    ensures
        file_at(toks, 0) matches Ok((_, end)) ==> end == toks.len(),
        spec_parse_all::<File>(toks) == match file_at(toks, 0) {
            Ok((f, _)) => Ok::<FileView, Error>(f),
            Err(e) => Err::<FileView, Error>(e),
        },
{
    lemma_inner_attrs_bounds(toks, 0, Seq::empty());
    if let Ok((attrs, p)) = inner_attrs(toks, 0, Seq::empty()) {
        lemma_items_reach_end(toks, p, Seq::empty());
    }
}

/// Parsing text is parsing the token stream that the text lexes into:
/// `parse_str(s)` and `parse2` of the stream that `s` lexes into agree.
pub proof fn parse_str_is_parse2_of_its_tokens<T: Parse>(s: Seq<char>, ts: proc_macro2::TokenStream)
    requires
        lexed(s) == Some(stream_tokens(ts)),
    ensures
        spec_parse_str::<T>(s) == spec_parse_all::<T>(stream_tokens(ts)),
{
}

/// `parse_file` is `parse_str::<File>` on the text that is left once the
/// byte order mark is dropped and the shebang line is set aside: its
/// attributes and items are exactly those, its errors are exactly those, and
/// its shebang is the line set aside. This holds whether or not there is a
/// shebang line.
pub proof fn parse_file_is_parse_str_of_the_rest(s: Seq<char>)
    ensures
        match (spec_parse_file(s), spec_parse_str::<File>(split_shebang(s).1)) {
            (Ok(f), Ok(g)) => f.shebang == split_shebang(s).0 && f.attrs == g.attrs && f.items
                == g.items,
            (Err(e1), Err(e2)) => e1 == e2,
            _ => false,
        },
{
}

/// Reading inner attributes with some already read is reading them afresh
/// and putting those already read in front.
pub proof fn lemma_inner_attrs_acc(toks: Seq<TokenView>, pos: int, acc: Seq<AttributeView>)
    ensures
        inner_attrs(toks, pos, acc) == match inner_attrs(toks, pos, Seq::empty()) {
            Ok((r, e)) => Ok::<(Seq<AttributeView>, int), Error>((acc + r, e)),
            Err(x) => Err::<(Seq<AttributeView>, int), Error>(x),
        },
    decreases toks.len() - pos,
{
    if 0 <= pos && pos + 1 < toks.len() && is_punct(toks[pos], '#') && is_punct(toks[pos + 1], '!') {
        lemma_attr_body_advances(toks, pos + 2, AttrStyle::Inner);
        if let Ok((a, next)) = attr_body(toks, pos + 2, AttrStyle::Inner) {
            let e: Seq<AttributeView> = Seq::empty();
            lemma_inner_attrs_acc(toks, next, acc.push(a));
            lemma_inner_attrs_acc(toks, next, e.push(a));
            if let Ok((r, end)) = inner_attrs(toks, next, Seq::empty()) {
                assert(acc + (e.push(a) + r) =~= acc.push(a) + r);
            }
        }
    } else {
        assert(acc + Seq::<AttributeView>::empty() =~= acc);
    }
}

/// Inner attributes follow one another: where a complete inner attribute
/// `a` stands at `pos` and ends at `next`, the inner attributes read from
/// `pos` are `a` followed by those read from `next`.
pub proof fn inner_attrs_concatenate(toks: Seq<TokenView>, pos: int, a: AttributeView, next: int)
    requires
        0 <= pos,
        pos + 1 < toks.len(),
        is_punct(toks[pos], '#'),
        is_punct(toks[pos + 1], '!'),
        attr_body(toks, pos + 2, AttrStyle::Inner) == Ok::<(AttributeView, int), Error>((a, next)),
    ensures
        inner_attrs(toks, pos, Seq::empty()) == match inner_attrs(toks, next, Seq::empty()) {
            Ok((rest, end)) => Ok::<(Seq<AttributeView>, int), Error>((seq![a] + rest, end)),
            Err(x) => Err::<(Seq<AttributeView>, int), Error>(x),
        },
{
    let e: Seq<AttributeView> = Seq::empty();
    assert(e.push(a) =~= seq![a]);
    lemma_inner_attrs_acc(toks, next, e.push(a));
}

/// Reading inner attributes stops only where no `#!` follows.
pub proof fn inner_attrs_stop_only_where_none_follows(
    toks: Seq<TokenView>,
    pos: int,
    acc: Seq<AttributeView>,
)
    requires
        0 <= pos,
    ensures
        inner_attrs(toks, pos, acc) matches Ok((_, end)) ==> !(end + 1 < toks.len() && is_punct(
            toks[end],
            '#',
        ) && is_punct(toks[end + 1], '!')),
    decreases toks.len() - pos,
{
    if 0 <= pos && pos + 1 < toks.len() && is_punct(toks[pos], '#') && is_punct(toks[pos + 1], '!') {
        lemma_attr_body_advances(toks, pos + 2, AttrStyle::Inner);
        if let Ok((a, next)) = attr_body(toks, pos + 2, AttrStyle::Inner) {
            inner_attrs_stop_only_where_none_follows(toks, next, acc.push(a));
        }
    }
}

/// Reading outer attributes with some already read is reading them afresh
/// and putting those already read in front.
pub proof fn lemma_outer_attrs_acc(toks: Seq<TokenView>, pos: int, acc: Seq<AttributeView>)
    ensures
        outer_attrs(toks, pos, acc) == match outer_attrs(toks, pos, Seq::empty()) {
            Ok((r, e)) => Ok::<(Seq<AttributeView>, int), Error>((acc + r, e)),
            Err(x) => Err::<(Seq<AttributeView>, int), Error>(x),
        },
    decreases toks.len() - pos,
{
    if 0 <= pos < toks.len() && is_punct(toks[pos], '#') {
        lemma_attr_body_advances(toks, pos + 1, AttrStyle::Outer);
        if let Ok((a, next)) = attr_body(toks, pos + 1, AttrStyle::Outer) {
            let e: Seq<AttributeView> = Seq::empty();
            lemma_outer_attrs_acc(toks, next, acc.push(a));
            lemma_outer_attrs_acc(toks, next, e.push(a));
            if let Ok((r, end)) = outer_attrs(toks, next, Seq::empty()) {
                assert(acc + (e.push(a) + r) =~= acc.push(a) + r);
            }
        }
    } else {
        assert(acc + Seq::<AttributeView>::empty() =~= acc);
    }
}

/// Outer attributes follow one another: where a complete outer attribute
/// `a` stands at `pos` and ends at `next`, the outer attributes read from
/// `pos` are `a` followed by those read from `next`.
pub proof fn outer_attrs_concatenate(toks: Seq<TokenView>, pos: int, a: AttributeView, next: int)
    requires
        0 <= pos < toks.len(),
        is_punct(toks[pos], '#'),
        attr_body(toks, pos + 1, AttrStyle::Outer) == Ok::<(AttributeView, int), Error>((a, next)),
    ensures
        outer_attrs(toks, pos, Seq::empty()) == match outer_attrs(toks, next, Seq::empty()) {
            Ok((rest, end)) => Ok::<(Seq<AttributeView>, int), Error>((seq![a] + rest, end)),
            Err(x) => Err::<(Seq<AttributeView>, int), Error>(x),
        },
{
    let e: Seq<AttributeView> = Seq::empty();
    assert(e.push(a) =~= seq![a]);
    lemma_outer_attrs_acc(toks, next, e.push(a));
}

/// Reading outer attributes stops only where no `#` follows.
pub proof fn outer_attrs_stop_only_where_none_follows(
    toks: Seq<TokenView>,
    pos: int,
    acc: Seq<AttributeView>,
)
    requires
        0 <= pos,
    ensures
        outer_attrs(toks, pos, acc) matches Ok((_, end)) ==> !(end < toks.len() && is_punct(
            toks[end],
            '#',
        )),
    decreases toks.len() - pos,
{
    if 0 <= pos < toks.len() && is_punct(toks[pos], '#') {
        lemma_attr_body_advances(toks, pos + 1, AttrStyle::Outer);
        if let Ok((a, next)) = attr_body(toks, pos + 1, AttrStyle::Outer) {
            outer_attrs_stop_only_where_none_follows(toks, next, acc.push(a));
        }
    }
}

/// A group ends just past a `Close`.
pub proof fn group_ends_at_a_close(toks: Seq<TokenView>, i: int, depth: nat)
    ensures
        close_after(toks, i, depth) matches Some(e) ==> 0 <= e - 1 < toks.len() && toks[e - 1] is Close,
    decreases toks.len() - i,
{
    if 0 <= i < toks.len() {
        match toks[i] {
            TokenView::Open(_) => group_ends_at_a_close(toks, i + 1, depth + 1),
            TokenView::Close(_) => if depth > 1 {
                group_ends_at_a_close(toks, i + 1, (depth - 1) as nat);
            },
            _ => group_ends_at_a_close(toks, i + 1, depth),
        }
    }
}

/// An item ends with a `;`, or, where a `{ ... }` group may end it, with a
/// `Close`.
pub proof fn item_body_ends_with_semicolon_or_close(toks: Seq<TokenView>, i: int, braces: bool)
    ensures
        item_end(toks, i, braces) matches Ok(e) ==> 0 <= e - 1 < toks.len() && (is_punct(
            toks[e - 1],
            ';',
        ) || (braces && toks[e - 1] is Close)),
    decreases toks.len() - i,
{
    if 0 <= i < toks.len() {
        lemma_close_after_bounds(toks, i + 1, 1);
        group_ends_at_a_close(toks, i + 1, 1);
        match toks[i] {
            TokenView::Punct(c, _) => if c != ';' {
                item_body_ends_with_semicolon_or_close(toks, i + 1, braces);
            },
            TokenView::Open(d) => if let Some(e) = group_end(toks, i) {
                if !(braces && d == Delimiter::Brace) {
                    item_body_ends_with_semicolon_or_close(toks, e, braces);
                }
            },
            TokenView::Close(_) => {},
            _ => item_body_ends_with_semicolon_or_close(toks, i + 1, braces),
        }
    }
}

/// The text of the item keywords.
pub proof fn lemma_keyword_text()
    ensures
        "fn"@ == seq!['f', 'n'],
        "struct"@ == seq!['s', 't', 'r', 'u', 'c', 't'],
        "enum"@ == seq!['e', 'n', 'u', 'm'],
        "trait"@ == seq!['t', 'r', 'a', 'i', 't'],
        "mod"@ == seq!['m', 'o', 'd'],
        "union"@ == seq!['u', 'n', 'i', 'o', 'n'],
        "type"@ == seq!['t', 'y', 'p', 'e'],
        "static"@ == seq!['s', 't', 'a', 't', 'i', 'c'],
        "use"@ == seq!['u', 's', 'e'],
        "const"@ == seq!['c', 'o', 'n', 's', 't'],
        "async"@ == seq!['a', 's', 'y', 'n', 'c'],
        "unsafe"@ == seq!['u', 'n', 's', 'a', 'f', 'e'],
        "extern"@ == seq!['e', 'x', 't', 'e', 'r', 'n'],
        "impl"@ == seq!['i', 'm', 'p', 'l'],
        "crate"@ == seq!['c', 'r', 'a', 't', 'e'],
{
    reveal_strlit("fn");
    reveal_strlit("struct");
    reveal_strlit("enum");
    reveal_strlit("trait");
    reveal_strlit("mod");
    reveal_strlit("union");
    reveal_strlit("type");
    reveal_strlit("static");
    reveal_strlit("use");
    reveal_strlit("const");
    reveal_strlit("async");
    reveal_strlit("unsafe");
    reveal_strlit("extern");
    reveal_strlit("impl");
    reveal_strlit("crate");
}

/// Whether the item head at `k` is one of the items that run to their
/// `;`: a `use` declaration, a `static` or `const` value, a type alias.
pub open spec fn semicolon_item_head(toks: Seq<TokenView>, k: int) -> bool {
    0 <= k < toks.len() && (is_kw(toks[k], "use"@) || is_kw(toks[k], "static"@) || is_kw(
        toks[k],
        "type"@,
    ) || (is_kw(toks[k], "const"@) && !(k + 1 < toks.len() && is_fn_qualifier(toks[k + 1]))))
}

/// A `use`, `static`, `type` or `const` value item is never ended by a
/// brace group: where its head is accepted, braces in it do not end it.
pub proof fn semicolon_item_heads_ignore_braces(toks: Seq<TokenView>, k: int)
    requires
        semicolon_item_head(toks, k),
    ensures
        item_kind(toks, k) matches Ok(b) ==> !b,
{
    lemma_keyword_text();
}

/// A `use`, `static`, `type` or `const` value item runs to, and ends with,
/// a `;` (braces inside it, as in `use a::{b, c};`, do not end it).
pub proof fn semicolon_items_end_with_semicolon(toks: Seq<TokenView>, pos: int)
    requires
        0 <= pos <= toks.len(),
    ensures
        outer_attrs(toks, pos, Seq::empty()) matches Ok((_, p)) && semicolon_item_head(
            toks,
            after_vis(toks, p),
        ) ==> (item_at(toks, pos) matches Ok((it, end)) ==> it.tokens.len() > 0 && is_punct(
            it.tokens.last(),
            ';',
        ) && is_punct(toks[end - 1], ';')),
{
    lemma_outer_attrs_bounds(toks, pos, Seq::empty());
    if let Ok((_, p)) = outer_attrs(toks, pos, Seq::empty()) {
        let k = after_vis(toks, p);
        if semicolon_item_head(toks, k) {
            semicolon_item_heads_ignore_braces(toks, k);
            if let Ok(b) = item_kind(toks, k) {
                item_body_ends_with_semicolon_or_close(toks, p, b);
                lemma_item_end_advances(toks, p, b);
                if let Ok(end) = item_end(toks, p, b) {
                    assert(toks.subrange(p, end).last() == toks[end - 1]);
                }
            }
        }
    }
}

/// A `use` declaration with something after `use` other than `;` is
/// accepted, and only its `;` ends it.
pub proof fn use_declarations_run_to_their_semicolon(toks: Seq<TokenView>, p: int)
    requires
        0 <= p,
        p + 1 < toks.len(),
        is_kw(toks[p], "use"@),
        !is_punct(toks[p + 1], ';'),
    ensures
        item_kind(toks, p) == Ok::<bool, Error>(false),
{
    lemma_keyword_text();
}

/// Functions, structs, enums, traits and modules with a name are accepted,
/// and their `{ ... }` body ends them.
pub proof fn named_block_items_end_with_their_body(toks: Seq<TokenView>, p: int)
    requires
        0 <= p,
        p + 1 < toks.len(),
        is_kw(toks[p], "fn"@) || is_kw(toks[p], "struct"@) || is_kw(toks[p], "enum"@) || is_kw(
            toks[p],
            "trait"@,
        ) || is_kw(toks[p], "mod"@),
        toks[p + 1] is Ident,
    ensures
        item_kind(toks, p) == Ok::<bool, Error>(true),
{
}

/// Qualifiers pass through: `unsafe` before `fn`, `unsafe`, `impl`,
/// `trait` or `extern`, `async` before `fn` or `unsafe`, and `const` before
/// `fn`, `unsafe`, `async` or `extern`, are accepted exactly where what
/// they qualify is, and change nothing about how the item ends.
pub proof fn qualifiers_pass_through(toks: Seq<TokenView>, p: int)
    requires
        0 <= p,
        p + 1 < toks.len(),
        (is_kw(toks[p], "unsafe"@) && (is_kw(toks[p + 1], "fn"@) || is_kw(toks[p + 1], "unsafe"@)
            || is_kw(toks[p + 1], "impl"@) || is_kw(toks[p + 1], "trait"@) || is_kw(
            toks[p + 1],
            "extern"@,
        ))) || (is_kw(toks[p], "async"@) && (is_kw(toks[p + 1], "fn"@) || is_kw(
            toks[p + 1],
            "unsafe"@,
        ))) || (is_kw(toks[p], "const"@) && is_fn_qualifier(toks[p + 1])),
    ensures
        item_kind(toks, p) == item_kind(toks, p + 1),
{
    lemma_keyword_text();
}

/// How much a token changes the nesting depth of groups.
pub open spec fn depth_step(t: TokenView) -> int {
    match t {
        TokenView::Open(_) => 1,
        TokenView::Close(_) => -1,
        _ => 0,
    }
}

/// The change in nesting depth over `toks[i..j]`.
pub open spec fn net_depth(toks: Seq<TokenView>, i: int, j: int) -> int
    decreases j - i,
{
    if i >= j {
        0
    } else {
        depth_step(toks[i]) + net_depth(toks, i + 1, j)
    }
}

/// A group closes at its matching `Close`: scanning from `i` inside `depth`
/// open groups, the `Close` at `e - 1` brings the depth to zero, and the
/// depth stays above zero before it.
pub proof fn group_closes_at_its_matching_close(toks: Seq<TokenView>, i: int, depth: nat)
    requires
        0 <= i,
        depth >= 1,
    ensures
        close_after(toks, i, depth) matches Some(e) ==> {
            &&& i < e <= toks.len()
            &&& toks[e - 1] is Close
            &&& depth + net_depth(toks, i, e - 1) == 1
            &&& forall|j: int| i <= j <= e - 1 ==> depth + #[trigger] net_depth(toks, i, j) >= 1
        },
    decreases toks.len() - i,
{
    if 0 <= i < toks.len() {
        lemma_close_after_bounds(toks, i, depth);
        match toks[i] {
            TokenView::Open(_) => {
                group_closes_at_its_matching_close(toks, i + 1, depth + 1);
                if let Some(e) = close_after(toks, i, depth) {
                    assert forall|j: int| i <= j <= e - 1 implies depth + #[trigger] net_depth(
                        toks,
                        i,
                        j,
                    ) >= 1 by {
                        if j > i {
                            assert(net_depth(toks, i, j) == 1 + net_depth(toks, i + 1, j));
                        }
                    }
                }
            },
            TokenView::Close(_) => if depth > 1 {
                group_closes_at_its_matching_close(toks, i + 1, (depth - 1) as nat);
                if let Some(e) = close_after(toks, i, depth) {
                    assert forall|j: int| i <= j <= e - 1 implies depth + #[trigger] net_depth(
                        toks,
                        i,
                        j,
                    ) >= 1 by {
                        if j > i {
                            assert(net_depth(toks, i, j) == -1 + net_depth(toks, i + 1, j));
                        }
                    }
                }
            },
            _ => {
                group_closes_at_its_matching_close(toks, i + 1, depth);
                if let Some(e) = close_after(toks, i, depth) {
                    assert forall|j: int| i <= j <= e - 1 implies depth + #[trigger] net_depth(
                        toks,
                        i,
                        j,
                    ) >= 1 by {
                        if j > i {
                            assert(net_depth(toks, i, j) == net_depth(toks, i + 1, j));
                        }
                    }
                }
            },
        }
    }
}

/// An attribute is its bracketed group: `[`, the attribute's tokens, and
/// the matching `]` are exactly the buffer's tokens from `p` to its end.
pub proof fn attribute_is_its_bracketed_group(toks: Seq<TokenView>, p: int, style: AttrStyle)
    requires
        0 <= p,
    ensures
        attr_body(toks, p, style) matches Ok((a, e)) ==> {
            &&& a.style == style
            &&& toks[e - 1] is Close
            &&& toks.subrange(p, e) == seq![TokenView::Open(Delimiter::Bracket)] + a.tokens
                + seq![toks[e - 1]]
        },
        !(p < toks.len() && toks[p] == TokenView::Open(Delimiter::Bracket)) ==> attr_body(
            toks,
            p,
            style,
        ) == Err::<(AttributeView, int), Error>(Error::ExpectedSquareBrackets),
{
    group_closes_at_its_matching_close(toks, p + 1, 1);
    if let Ok((a, e)) = attr_body(toks, p, style) {
        assert(toks.subrange(p, e) =~= seq![TokenView::Open(Delimiter::Bracket)] + a.tokens
            + seq![toks[e - 1]]);
    }
}

/// An item's tokens are the buffer's tokens from the end of its outer
/// attributes to the end of the item.
pub proof fn item_is_its_source_tokens(toks: Seq<TokenView>, pos: int)
    requires
        0 <= pos <= toks.len(),
    ensures
        item_at(toks, pos) matches Ok((it, end)) ==> (outer_attrs(toks, pos, Seq::empty()) matches Ok(
            (attrs, p),
        ) && it.attrs == attrs && it.tokens == toks.subrange(p, end) && p < end),
{
    lemma_item_at_advances(toks, pos);
    lemma_outer_attrs_bounds(toks, pos, Seq::empty());
    if let Ok((_, p)) = outer_attrs(toks, pos, Seq::empty()) {
        if let Ok(b) = item_kind(toks, after_vis(toks, p)) {
            lemma_item_end_advances(toks, p, b);
        }
    }
}

/// Reading items with some already read is reading them afresh and
/// putting those already read in front.
pub proof fn lemma_items_acc(toks: Seq<TokenView>, pos: int, acc: Seq<ItemView>)
    requires
        0 <= pos,
    ensures
        items_from(toks, pos, acc) == match items_from(toks, pos, Seq::empty()) {
            Ok((r, e)) => Ok::<(Seq<ItemView>, int), Error>((acc + r, e)),
            Err(x) => Err::<(Seq<ItemView>, int), Error>(x),
        },
    decreases toks.len() - pos,
{
    if pos < toks.len() {
        lemma_item_at_advances(toks, pos);
        if let Ok((it, next)) = item_at(toks, pos) {
            let e: Seq<ItemView> = Seq::empty();
            lemma_items_acc(toks, next, acc.push(it));
            lemma_items_acc(toks, next, e.push(it));
            if let Ok((r, end)) = items_from(toks, next, Seq::empty()) {
                assert(acc + (e.push(it) + r) =~= acc.push(it) + r);
            }
        }
    } else {
        assert(acc + Seq::<ItemView>::empty() =~= acc);
    }
}

/// Items follow one another to the end of the buffer: where an item `it`
/// stands at `pos` and ends at `next`, the items read from `pos` are `it`
/// followed by those read from `next`; and at the end of the buffer there
/// are none.
pub proof fn items_concatenate(toks: Seq<TokenView>, pos: int, it: ItemView, next: int)
    requires
        0 <= pos < toks.len(),
        item_at(toks, pos) == Ok::<(ItemView, int), Error>((it, next)),
    ensures
        items_from(toks, pos, Seq::empty()) == match items_from(toks, next, Seq::empty()) {
            Ok((rest, end)) => Ok::<(Seq<ItemView>, int), Error>((seq![it] + rest, end)),
            Err(x) => Err::<(Seq<ItemView>, int), Error>(x),
        },
        items_from(toks, toks.len() as int, Seq::empty()) == Ok::<(Seq<ItemView>, int), Error>(
            (Seq::empty(), toks.len() as int),
        ),
{
    lemma_item_at_advances(toks, pos);
    let e: Seq<ItemView> = Seq::empty();
    assert(e.push(it) =~= seq![it]);
    lemma_items_acc(toks, next, e.push(it));
}

/// The scan of an item's body passes over tokens that are neither a `;`
/// nor part of a group.
pub proof fn item_end_passes_plain_tokens(toks: Seq<TokenView>, i: int, j: int, braces: bool)
    requires
        0 <= i <= j,
        forall|k: int|
            i <= k < j ==> !(#[trigger] toks[k] is Open) && !(toks[k] is Close) && !is_punct(
                toks[k],
                ';',
            ),
        j <= toks.len(),
    ensures
        item_end(toks, i, braces) == item_end(toks, j, braces),
    decreases j - i,
{
    if i < j {
        item_end_passes_plain_tokens(toks, i + 1, j, braces);
    }
}

/// The first `;` at the top level ends an item; so does the first
/// `{ ... }` group at the top level where braces may end it; any other
/// group is passed over whole.
pub proof fn item_ends_at_its_first_terminator(toks: Seq<TokenView>, j: int, braces: bool)
    requires
        0 <= j < toks.len(),
    ensures
        is_punct(toks[j], ';') ==> item_end(toks, j, braces) == Ok::<int, Error>(j + 1),
        braces && toks[j] == TokenView::Open(Delimiter::Brace) && group_end(toks, j) is Some
            ==> item_end(toks, j, braces) == Ok::<int, Error>(group_end(toks, j).unwrap()),
        toks[j] is Open && !(braces && toks[j] == TokenView::Open(Delimiter::Brace)) && group_end(
            toks,
            j,
        ) is Some ==> item_end(toks, j, braces) == item_end(toks, group_end(toks, j).unwrap(), braces),
{
    lemma_close_after_bounds(toks, j + 1, 1);
}

/// Reading a node off a whole buffer succeeds exactly when the node read
/// from its start uses every token.
pub proof fn parse_all_uses_every_token<T: Parse>(toks: Seq<TokenView>, v: T::V)
    ensures
        spec_parse_all::<T>(toks) == Ok::<T::V, Error>(v) <==> T::spec_parse(toks, 0) == Ok::<
            (T::V, int),
            Error,
        >((v, toks.len() as int)),
        T::spec_parse(toks, 0) matches Ok((_, end)) && end != toks.len() ==> spec_parse_all::<T>(
            toks,
        ) == Err::<T::V, Error>(Error::UnexpectedToken),
        T::spec_parse(toks, 0) matches Err(e) ==> spec_parse_all::<T>(toks) == Err::<T::V, Error>(e),
{
}

/// `parse_file` splits the text exactly: at most one byte order mark, then
/// the shebang line if the text (after the mark) begins with `#!` not
/// followed by `[`, then the text that is parsed; put back together they are
/// the text.
pub proof fn file_text_is_split_exactly(s: Seq<char>)
    ensures
        ({
            let bom = s.len() > 0 && s[0] == '\u{feff}';
            let mark: Seq<char> = if bom { seq!['\u{feff}'] } else { Seq::empty() };
            let t = s.skip(mark.len() as int);
            let (shebang, body) = split_shebang(s);
            &&& (shebang is Some <==> (t.len() >= 2 && t[0] == '#' && t[1] == '!' && !(t.len() >= 3
                && t[2] == '[')))
            &&& match shebang {
                Some(line) => mark + line + body == s,
                None => mark + body == s,
            }
        }),
{
    shebang_is_kept_apart(s);
    let bom = s.len() > 0 && s[0] == '\u{feff}';
    let mark: Seq<char> = if bom { seq!['\u{feff}'] } else { Seq::empty() };
    assert(s.skip(mark.len() as int) =~= strip_bom(s));
    assert(mark + strip_bom(s) =~= s);
    let (shebang, body) = split_shebang(s);
    if let Some(line) = shebang {
        assert(mark + line + body =~= mark + (line + body));
    }
}

/// Whether `t` is one of the keywords that can begin an item.
pub open spec fn is_item_keyword(t: TokenView) -> bool {
    ||| is_kw(t, "fn"@)
    ||| is_kw(t, "struct"@)
    ||| is_kw(t, "enum"@)
    ||| is_kw(t, "trait"@)
    ||| is_kw(t, "mod"@)
    ||| is_kw(t, "union"@)
    ||| is_kw(t, "type"@)
    ||| is_kw(t, "static"@)
    ||| is_kw(t, "use"@)
    ||| is_kw(t, "const"@)
    ||| is_kw(t, "async"@)
    ||| is_kw(t, "unsafe"@)
    ||| is_kw(t, "extern"@)
    ||| is_kw(t, "impl"@)
}

/// `impl` blocks, `extern` blocks, `extern` functions, unions and macro
/// invocations are accepted, and may be ended by their `{ ... }` group;
/// `extern crate` with a name runs to its `;`.
pub proof fn other_item_heads(toks: Seq<TokenView>, p: int)
    requires
        0 <= p,
        p + 1 < toks.len(),
    ensures
        is_kw(toks[p], "impl"@) && !(toks[p + 1] == TokenView::Open(Delimiter::Brace)) && !is_punct(
            toks[p + 1],
            ';',
        ) ==> item_kind(toks, p) == Ok::<bool, Error>(true),
        is_kw(toks[p], "extern"@) && toks[p + 1] == TokenView::Open(Delimiter::Brace) ==> item_kind(
            toks,
            p,
        ) == Ok::<bool, Error>(true),
        is_kw(toks[p], "extern"@) && p + 2 < toks.len() && toks[p + 1] is Literal && toks[p + 2]
            == TokenView::Open(Delimiter::Brace) ==> item_kind(toks, p) == Ok::<bool, Error>(true),
        is_kw(toks[p], "extern"@) && is_kw(toks[p + 1], "fn"@) ==> item_kind(toks, p) == item_kind(
            toks,
            p + 1,
        ),
        is_kw(toks[p], "extern"@) && p + 2 < toks.len() && toks[p + 1] is Literal && is_kw(
            toks[p + 2],
            "fn"@,
        ) ==> item_kind(toks, p) == item_kind(toks, p + 2),
        is_kw(toks[p], "extern"@) && is_kw(toks[p + 1], "crate"@) && p + 2 < toks.len()
            && toks[p + 2] is Ident ==> item_kind(toks, p) == Ok::<bool, Error>(false),
        is_kw(toks[p], "union"@) && toks[p + 1] is Ident ==> item_kind(toks, p) == Ok::<bool, Error>(
            true,
        ),
        toks[p] is Ident && !is_item_keyword(toks[p]) && is_punct(toks[p + 1], '!') ==> item_kind(
            toks,
            p,
        ) == Ok::<bool, Error>(true),
{
    lemma_keyword_text();
}

/// What cannot begin an item is refused: a literal, a group, or an
/// identifier that is no item keyword and is followed by neither `!` nor
/// `:` (of a macro path).
pub proof fn non_items_are_refused(toks: Seq<TokenView>, p: int)
    requires
        0 <= p < toks.len(),
    ensures
        toks[p] is Literal || toks[p] is Open ==> item_kind(toks, p) == Err::<bool, Error>(
            Error::ExpectedItem,
        ),
        toks[p] is Ident && !is_item_keyword(toks[p]) && !(p + 1 < toks.len() && (is_punct(
            toks[p + 1],
            '!',
        ) || is_punct(toks[p + 1], ':'))) ==> item_kind(toks, p) == Err::<bool, Error>(
            Error::ExpectedItem,
        ),
{
    lemma_keyword_text();
}

} // verus!
