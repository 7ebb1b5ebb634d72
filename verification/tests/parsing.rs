use syn::{parse2, parse_file, parse_str, parse_tokens, tokenize};
use syn::{AttrStyle, Delimiter, Error, File, Spacing, Token};
use std::str::FromStr;

fn ident(s: &str) -> Token {
    Token::Ident(s.to_string())
}

fn punct(c: char, spacing: Spacing) -> Token {
    Token::Punct(c, spacing)
}

#[test]
fn tokenize_flattens_groups() {
    let toks = tokenize("a + (b [c])").unwrap();
    assert_eq!(
        toks,
        vec![
            ident("a"),
            punct('+', Spacing::Alone),
            Token::Open(Delimiter::Parenthesis),
            ident("b"),
            Token::Open(Delimiter::Bracket),
            ident("c"),
            Token::Close(Delimiter::Bracket),
            Token::Close(Delimiter::Parenthesis),
        ]
    );
}

#[test]
fn tokenize_keeps_literals_and_spacing() {
    let toks = tokenize("x += \"hi\" 1u8").unwrap();
    assert_eq!(
        toks,
        vec![
            ident("x"),
            punct('+', Spacing::Joint),
            punct('=', Spacing::Alone),
            Token::Literal("\"hi\"".to_string()),
            Token::Literal("1u8".to_string()),
        ]
    );
}

#[test]
fn tokenize_refuses_unbalanced_text() {
    assert_eq!(tokenize("(a"), Err(Error::Lex));
    assert_eq!(tokenize("\"open"), Err(Error::Lex));
}

#[test]
fn tokenize_refuses_byte_order_mark() {
    assert_eq!(tokenize("\u{feff}fn f() {}"), Err(Error::Lex));
}

#[test]
fn parse_str_reads_items_and_attributes() {
    let f: File = parse_str("#![allow(dead_code)]\n#[derive(Debug)] struct A; fn f() {}").unwrap();
    assert_eq!(f.shebang, None);
    assert_eq!(f.attrs.len(), 1);
    assert_eq!(f.attrs[0].style, AttrStyle::Inner);
    assert_eq!(
        f.attrs[0].tokens,
        vec![
            ident("allow"),
            Token::Open(Delimiter::Parenthesis),
            ident("dead_code"),
            Token::Close(Delimiter::Parenthesis),
        ]
    );
    assert_eq!(f.items.len(), 2);
    assert_eq!(f.items[0].attrs.len(), 1);
    assert_eq!(f.items[0].attrs[0].style, AttrStyle::Outer);
    assert_eq!(f.items[0].tokens, vec![ident("struct"), ident("A"), punct(';', Spacing::Alone)]);
    assert_eq!(f.items[1].attrs.len(), 0);
    assert_eq!(
        f.items[1].tokens,
        vec![
            ident("fn"),
            ident("f"),
            Token::Open(Delimiter::Parenthesis),
            Token::Close(Delimiter::Parenthesis),
            Token::Open(Delimiter::Brace),
            Token::Close(Delimiter::Brace),
        ]
    );
}

#[test]
fn const_and_static_items_run_to_their_semicolon() {
    let f: File = parse_str("const C: S = S {}; static X: [u8; 2] = [1, 2]; impl T for U { fn g() {} }").unwrap();
    assert_eq!(f.items.len(), 3);
    assert_eq!(f.items[0].tokens.len(), 9);
    assert_eq!(f.items[0].tokens[8], punct(';', Spacing::Alone));
    assert_eq!(f.items[1].tokens.last(), Some(&punct(';', Spacing::Alone)));
    assert_eq!(f.items[2].tokens[0], ident("impl"));
}

#[test]
fn doc_comments_become_attributes() {
    let f: File = parse_str("//! crate docs\n/// item docs\nfn f() {}").unwrap();
    assert_eq!(f.attrs.len(), 1);
    assert_eq!(f.attrs[0].tokens[0], ident("doc"));
    assert_eq!(f.items.len(), 1);
    assert_eq!(f.items[0].attrs.len(), 1);
}

#[test]
fn empty_source_is_an_empty_file() {
    let f: File = parse_str("").unwrap();
    assert_eq!(f, File { shebang: None, attrs: vec![], items: vec![] });
}

#[test]
fn error_expected_square_brackets() {
    assert_eq!(parse_str::<File>("#!/usr/bin/env rustx\nfn main() {}"), Err(Error::ExpectedSquareBrackets));
    assert_eq!(parse_str::<File>("# fn f() {}"), Err(Error::ExpectedSquareBrackets));
}

#[test]
fn error_unexpected_end() {
    assert_eq!(parse_str::<File>("fn f()"), Err(Error::UnexpectedEnd));
    assert_eq!(parse_str::<File>("#[inline]"), Err(Error::UnexpectedEnd));
}

#[test]
fn error_expected_item() {
    assert_eq!(parse_str::<File>("struct A;;"), Err(Error::ExpectedItem));
}

#[test]
fn error_unexpected_token() {
    let toks = vec![Token::Close(Delimiter::Brace)];
    assert_eq!(parse_tokens::<File>(&toks), Err(Error::UnexpectedToken));
}

#[test]
fn error_lex() {
    assert_eq!(parse_str::<File>("fn f() { ( }"), Err(Error::Lex));
}

#[test]
fn parse_str_refuses_byte_order_mark() {
    assert_eq!(parse_str::<File>("\u{feff}fn main() {}"), Err(Error::Lex));
}

#[test]
fn parse_file_discards_byte_order_mark() {
    let with = parse_file("\u{feff}fn main() {}").unwrap();
    let without = parse_file("fn main() {}").unwrap();
    assert_eq!(with, without);
    assert_eq!(with.items.len(), 1);
}

#[test]
fn parse_file_keeps_shebang() {
    let f = parse_file("#!/usr/bin/env rustx\nfn main() {}").unwrap();
    assert_eq!(f.shebang, Some("#!/usr/bin/env rustx".to_string()));
    assert_eq!(f.items.len(), 1);
}

#[test]
fn parse_file_keeps_shebang_after_byte_order_mark() {
    let f = parse_file("\u{feff}#!/bin/run\n#![no_std]\nstruct S;").unwrap();
    assert_eq!(f.shebang, Some("#!/bin/run".to_string()));
    assert_eq!(f.attrs.len(), 1);
    assert_eq!(f.items.len(), 1);
}

#[test]
fn parse_file_shebang_without_line_break() {
    let f = parse_file("#!/bin/sh").unwrap();
    assert_eq!(f.shebang, Some("#!/bin/sh".to_string()));
    assert!(f.attrs.is_empty());
    assert!(f.items.is_empty());
}

#[test]
fn parse_file_inner_attribute_is_not_shebang() {
    let f = parse_file("#![allow(unused)]\nfn main() {}").unwrap();
    assert_eq!(f.shebang, None);
    assert_eq!(f.attrs.len(), 1);
    assert_eq!(f, parse_str::<File>("#![allow(unused)]\nfn main() {}").unwrap());
}

#[test]
fn parse_file_reports_errors_of_the_rest() {
    assert_eq!(parse_file("#!/bin/sh\nfn f()"), Err(Error::UnexpectedEnd));
}

#[test]
fn parse2_reads_a_token_stream() {
    let ts = proc_macro2::TokenStream::from_str("mod m { } use a::b;").unwrap();
    let f: File = parse2(ts).unwrap();
    assert_eq!(f.items.len(), 2);
    assert_eq!(f.items[1].tokens[0], ident("use"));
}

#[test]
fn parse_str_agrees_with_parse2_of_its_tokens() {
    let text = "#![no_std] pub struct P(u8); fn g() -> u8 { 1 }";
    let a: File = parse_str(text).unwrap();
    let b: File = parse2(proc_macro2::TokenStream::from_str(text).unwrap()).unwrap();
    assert_eq!(a, b);
}

#[test]
fn parse_tokens_agrees_with_parse_str() {
    let text = "enum E { A, B } mod m;";
    let toks = tokenize(text).unwrap();
    let a: File = parse_tokens(&toks).unwrap();
    assert_eq!(a, parse_str::<File>(text).unwrap());
    assert_eq!(a.items.len(), 2);
}

#[test]
fn spaced_inner_attribute_is_taken_as_shebang() {
    // `#! [` does not begin with `#![`, so the whole line is a shebang line,
    // although the same text is a valid inner attribute for `parse_str`.
    let f = parse_file("#! [allow(x)]\nfn f() {}").unwrap();
    assert_eq!(f.shebang, Some("#! [allow(x)]".to_string()));
    assert!(f.attrs.is_empty());
    let g: File = parse_str("#! [allow(x)]\nfn f() {}").unwrap();
    assert_eq!(g.attrs.len(), 1);
}

#[test]
fn only_one_byte_order_mark_is_dropped() {
    assert_eq!(parse_file("\u{feff}\u{feff}fn f() {}"), Err(Error::Lex));
}

#[test]
fn raw_identifiers_keep_their_prefix() {
    assert_eq!(tokenize("r#match").unwrap(), vec![ident("r#match")]);
}

#[test]
fn braces_inside_a_const_initializer_do_not_end_it() {
    let f: File = parse_str("pub(crate) const C: u8 = if a { 1 } else { 2 }; const X: T = T {}.f(); fn g() {}").unwrap();
    assert_eq!(f.items.len(), 3);
    assert_eq!(f.items[0].tokens[0], ident("pub"));
    assert_eq!(f.items[0].tokens.last(), Some(&punct(';', Spacing::Alone)));
    assert_eq!(f.items[1].tokens[0], ident("const"));
    assert_eq!(f.items[1].tokens.last(), Some(&punct(';', Spacing::Alone)));
    assert_eq!(f.items[2].tokens[0], ident("fn"));
}

#[test]
fn const_fn_ends_with_its_body() {
    let f: File = parse_str("const fn f() -> u8 { 1 } const unsafe fn g() {} static S: P = P { a: 1 };").unwrap();
    assert_eq!(f.items.len(), 3);
    assert_eq!(f.items[0].tokens.last(), Some(&Token::Close(Delimiter::Brace)));
    assert_eq!(f.items[1].tokens.last(), Some(&Token::Close(Delimiter::Brace)));
    assert_eq!(f.items[2].tokens.last(), Some(&punct(';', Spacing::Alone)));
}

#[test]
fn macro_invocations_are_items() {
    let f: File = parse_str("macro_rules! m { () => {} } m!(x); ::std::println! {} a::b![1];").unwrap();
    assert_eq!(f.items.len(), 4);
    assert_eq!(f.items[0].tokens[0], ident("macro_rules"));
    assert_eq!(f.items[1].tokens.len(), 6);
    assert_eq!(f.items[2].tokens[0], punct(':', Spacing::Joint));
    assert_eq!(f.items[3].tokens[0], ident("a"));
}

#[test]
fn text_that_is_not_an_item_is_refused() {
    assert_eq!(parse_str::<File>("a b c;"), Err(Error::ExpectedItem));
    assert_eq!(parse_str::<File>("let x = 1;"), Err(Error::ExpectedItem));
    assert_eq!(parse_str::<File>("struct S {};"), Err(Error::ExpectedItem));
    assert_eq!(parse_str::<File>("a::b c;"), Err(Error::ExpectedItem));
}

#[test]
fn blank_text_is_an_empty_file() {
    assert_eq!(tokenize(" \t\n\r").unwrap(), vec![]);
    let empty = File { shebang: None, attrs: vec![], items: vec![] };
    assert_eq!(parse_str::<File>("  \n\t"), Ok(empty.clone()));
    assert_eq!(parse_file("\n\n"), Ok(empty));
}

#[test]
fn item_keywords_need_what_follows_them() {
    assert_eq!(parse_str::<File>("fn @ {}"), Err(Error::ExpectedItem));
    assert_eq!(parse_str::<File>("struct ;"), Err(Error::ExpectedItem));
    assert_eq!(parse_str::<File>("impl {}"), Err(Error::ExpectedItem));
    assert_eq!(parse_str::<File>("use;"), Err(Error::ExpectedItem));
    assert_eq!(parse_str::<File>("unsafe struct S;"), Err(Error::ExpectedItem));
    assert_eq!(parse_str::<File>("extern x;"), Err(Error::ExpectedItem));
    assert_eq!(parse_str::<File>("fn"), Err(Error::UnexpectedEnd));
    assert_eq!(parse_str::<File>("pub"), Err(Error::UnexpectedEnd));
}

#[test]
fn qualified_and_extern_items() {
    let f: File = parse_str(
        "extern crate core; extern \"C\" { fn abs(x: i32) -> i32; } extern \"C\" fn h() {} \
         unsafe impl Send for S {} async fn a() {} const unsafe fn c() {} \
         union U { a: u8 } static mut N: u8 = 0; type T = u8; trait Tr {}",
    )
    .unwrap();
    assert_eq!(f.items.len(), 10);
    assert_eq!(f.items[1].tokens.last(), Some(&Token::Close(Delimiter::Brace)));
}

#[test]
fn parse_file_of_only_a_byte_order_mark_or_shebang() {
    let empty = File { shebang: None, attrs: vec![], items: vec![] };
    assert_eq!(parse_file("\u{feff}"), Ok(empty));
    let f = parse_file("#!/bin/sh\n   ").unwrap();
    assert_eq!(f, File { shebang: Some("#!/bin/sh".to_string()), attrs: vec![], items: vec![] });
}
