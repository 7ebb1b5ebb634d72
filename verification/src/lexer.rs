//! Breaking source text into tokens with `proc_macro2`, and flattening its
//! token trees into a buffer of [`Token`]s.

use vstd::prelude::*;
use crate::error::Error;
use crate::token::{Delimiter, Spacing, Token, TokenView, tokens_view, lemma_tokens_view_push};
use std::str::FromStr;

verus! {

#[verifier::external_type_specification]
#[verifier::external_body]
pub struct ExTokenStream(proc_macro2::TokenStream);

#[verifier::external_type_specification]
#[verifier::external_body]
pub struct ExTokenStreamIntoIter(proc_macro2::token_stream::IntoIter);

#[verifier::external_type_specification]
#[verifier::external_body]
pub struct ExTokenTree(proc_macro2::TokenTree);

#[verifier::external_type_specification]
#[verifier::external_body]
pub struct ExLexError(proc_macro2::LexError);

/// The flattened tokens of a token stream: its token trees one after the
/// other, each group written as its opening delimiter, the flattened tokens
/// of its contents, and its closing delimiter.
pub uninterp spec fn stream_tokens(ts: proc_macro2::TokenStream) -> Seq<TokenView>;

/// The flattened tokens of the token trees that an iterator has yet to yield.
pub uninterp spec fn iter_tokens(it: proc_macro2::token_stream::IntoIter) -> Seq<TokenView>;

/// The flattened tokens of one token tree.
pub uninterp spec fn tree_tokens(tt: proc_macro2::TokenTree) -> Seq<TokenView>;

/// The flattened tokens that `proc_macro2` lexes a text into, or `None`
/// where the text does not lex.
pub uninterp spec fn lexed(s: Seq<char>) -> Option<Seq<TokenView>>;

/// Whether `c` is one of the ASCII whitespace characters: space, `\t`,
/// `\n`, vertical tab, form feed, `\r`.
pub open spec fn is_ascii_space(c: char) -> bool {
    c == ' ' || (9 <= (c as u32) && (c as u32) <= 13)
}

/// Whether the text is empty or made only of ASCII whitespace.
pub open spec fn is_blank(s: Seq<char>) -> bool {
    forall|i: int| 0 <= i < s.len() ==> is_ascii_space(#[trigger] s[i])
}

/// One token tree, taken apart into plain values.
enum Piece {
    Group(Delimiter, proc_macro2::TokenStream),
    Ident(String),
    Punct(char, Spacing),
    Literal(String),
}

/// Calls `proc_macro2::TokenStream::from_str`.
///
/// `proc_macro2` is built without its `proc-macro` feature, so it always
/// lexes with its own lexer (never the compiler's), which returns `LexError`
/// on text it cannot lex rather than panicking. (Should another crate of the
/// same build turn that feature on, the compiler's lexer is used inside a
/// procedural macro and what follows is not known to hold.)
///
/// Claimed: the result is a function of the text (named `lexed`), with the
/// stream's flattened tokens on success; and a text that begins with a byte
/// order mark `\u{feff}` does not lex, since U+FEFF is neither whitespace nor
/// the start of any token for that lexer; and a text that is empty or only
/// ASCII whitespace lexes to an empty stream, since the lexer skips such
/// whitespace and then finds nothing left.
#[verifier::external_body]
fn lex(s: &str) -> (r: Result<proc_macro2::TokenStream, proc_macro2::LexError>)
    ensures
        match r {
            Ok(ts) => lexed(s@) == Some(stream_tokens(ts)),
            Err(_) => lexed(s@) is None,
        },
        s@.len() > 0 && s@[0] == '\u{feff}' ==> r is Err,
        is_blank(s@) ==> match r {
            Ok(ts) => stream_tokens(ts).len() == 0,
            Err(_) => false,
        },
{
    proc_macro2::TokenStream::from_str(s)
}

/// Calls `IntoIterator::into_iter` on a `proc_macro2::TokenStream`.
///
/// Claimed: the iterator yields exactly the stream's token trees.
#[verifier::external_body]
fn tree_iter(ts: proc_macro2::TokenStream) -> (r: proc_macro2::token_stream::IntoIter)
    ensures
        iter_tokens(r) == stream_tokens(ts),
{
    ts.into_iter()
}

/// Calls `Iterator::next` on a `proc_macro2::token_stream::IntoIter`.
///
/// Claimed: it returns `None` exactly when no tree is left, and otherwise the
/// first tree left, which the iterator then no longer holds.
#[verifier::external_body]
fn next_tree(it: &mut proc_macro2::token_stream::IntoIter) -> (r: Option<proc_macro2::TokenTree>)
    ensures
        match r {
            None => iter_tokens(*old(it)).len() == 0 && iter_tokens(*final(it)).len() == 0,
            Some(tt) => iter_tokens(*old(it)) == tree_tokens(tt) + iter_tokens(*final(it)),
        },
{
    it.next()
}

/// Takes a `proc_macro2::TokenTree` apart: a group into its delimiter and
/// its contents (`Group::delimiter`, `Group::stream`), an identifier or a
/// literal into its text (`Display`), a punctuation character into its
/// character and spacing (`Punct::as_char`, `Punct::spacing`).
///
/// Claimed: the tree's flattened tokens are made of these parts.
#[verifier::external_body]
fn tree_piece(tt: proc_macro2::TokenTree) -> (r: Piece)
    ensures
        match r {
            Piece::Group(d, ts) => tree_tokens(tt) == seq![TokenView::Open(d)] + stream_tokens(ts)
                + seq![TokenView::Close(d)],
            Piece::Ident(s) => tree_tokens(tt) == seq![TokenView::Ident(s@)],
            Piece::Punct(c, sp) => tree_tokens(tt) == seq![TokenView::Punct(c, sp)],
            Piece::Literal(s) => tree_tokens(tt) == seq![TokenView::Literal(s@)],
        },
{
    match tt {
        proc_macro2::TokenTree::Group(g) => Piece::Group(match g.delimiter() {
            proc_macro2::Delimiter::Parenthesis => Delimiter::Parenthesis,
            proc_macro2::Delimiter::Brace => Delimiter::Brace,
            proc_macro2::Delimiter::Bracket => Delimiter::Bracket,
            proc_macro2::Delimiter::None => Delimiter::Invisible,
        }, g.stream()),
        proc_macro2::TokenTree::Ident(i) => Piece::Ident(i.to_string()),
        proc_macro2::TokenTree::Punct(p) => Piece::Punct(p.as_char(), match p.spacing() {
            proc_macro2::Spacing::Alone => Spacing::Alone,
            proc_macro2::Spacing::Joint => Spacing::Joint,
        }),
        proc_macro2::TokenTree::Literal(l) => Piece::Literal(l.to_string()),
    }
}

/// Appends the flattened tokens of `ts` to `out`.
pub fn flatten_into(ts: proc_macro2::TokenStream, out: &mut Vec<Token>)
    ensures
        tokens_view(final(out)@) == tokens_view(old(out)@) + stream_tokens(ts),
    decreases stream_tokens(ts).len(),
{
    let ghost whole = stream_tokens(ts);
    let ghost start = tokens_view(out@);
    let ghost mut done: Seq<TokenView> = Seq::empty();
    let mut it = tree_iter(ts);
    loop
        invariant
            whole == stream_tokens(ts),
            tokens_view(out@) == start + done,
            whole == done + iter_tokens(it),
        ensures
            tokens_view(out@) == start + whole,
        decreases iter_tokens(it).len(),
    {
        let ghost before = iter_tokens(it);
        let ghost before_out = out@;
        match next_tree(&mut it) {
            None => {
                assert(done + iter_tokens(it) =~= done);
                break;
            },
            Some(tt) => {
                let piece = tree_piece(tt);
                match piece {
                    Piece::Group(d, inner) => {
                        assert(stream_tokens(inner).len() < whole.len());
                        proof { lemma_tokens_view_push(out@, Token::Open(d)); }
                        out.push(Token::Open(d));
                        flatten_into(inner, out);
                        proof { lemma_tokens_view_push(out@, Token::Close(d)); }
                        out.push(Token::Close(d));
                    },
                    Piece::Ident(s) => {
                        proof { lemma_tokens_view_push(out@, Token::Ident(s)); }
                        out.push(Token::Ident(s));
                    },
                    Piece::Punct(c, sp) => {
                        proof { lemma_tokens_view_push(out@, Token::Punct(c, sp)); }
                        out.push(Token::Punct(c, sp));
                    },
                    Piece::Literal(s) => {
                        proof { lemma_tokens_view_push(out@, Token::Literal(s)); }
                        out.push(Token::Literal(s));
                    },
                }
                proof {
                    assert(tokens_view(out@) =~= tokens_view(before_out) + tree_tokens(tt));
                    done = done + tree_tokens(tt);
                    assert(whole =~= done + iter_tokens(it));
                }
            },
        }
    }
}

/// The flattened tokens of a `proc_macro2` token stream.
pub fn stream_to_tokens(ts: proc_macro2::TokenStream) -> (r: Vec<Token>)
    ensures
        tokens_view(r@) == stream_tokens(ts),
{
    let mut out: Vec<Token> = Vec::new();
    flatten_into(ts, &mut out);
    assert(tokens_view(out@) =~= stream_tokens(ts));
    out
}

/// Breaks source text into flattened tokens.
pub fn tokenize(s: &str) -> (r: Result<Vec<Token>, Error>)
    ensures
        match r {
            Ok(v) => lexed(s@) == Some(tokens_view(v@)),
            Err(e) => lexed(s@) is None && e == Error::Lex,
        },
        s@.len() > 0 && s@[0] == '\u{feff}' ==> r == Err::<Vec<Token>, Error>(Error::Lex),
        is_blank(s@) ==> match r {
            Ok(v) => v@.len() == 0,
            Err(_) => false,
        },
{
    match lex(s) {
        Ok(ts) => Ok(stream_to_tokens(ts)),
        Err(_) => Err(Error::Lex),
    }
}

} // verus!
