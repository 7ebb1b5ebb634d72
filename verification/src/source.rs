//! The text of a source file before it is lexed: a leading byte order mark
//! and a shebang line.

use vstd::prelude::*;

verus! {

/// Whether the text begins with a byte order mark.
pub open spec fn starts_with_bom(s: Seq<char>) -> bool {
    s.len() > 0 && s[0] == '\u{feff}'
}

/// The text without its leading byte order mark, if it has one.
pub open spec fn strip_bom(s: Seq<char>) -> Seq<char> {
    if starts_with_bom(s) {
        s.drop_first()
    } else {
        s
    }
}

/// Whether the text begins with `#!` that does not begin an inner attribute
/// `#![`.
pub open spec fn starts_with_shebang(s: Seq<char>) -> bool {
    s.len() >= 2 && s[0] == '#' && s[1] == '!' && !(s.len() >= 3 && s[2] == '[')
}

/// The position of the first `\n` at or after `i`, or the length of the
/// text where there is none.
pub open spec fn line_end(s: Seq<char>, i: int) -> int
    decreases s.len() - i,
{
    if i < 0 || i >= s.len() {
        s.len() as int
    } else if s[i] == '\n' {
        i
    } else {
        line_end(s, i + 1)
    }
}

/// The end of a line lies between where the search starts and the end of
/// the text.
pub proof fn lemma_line_end_bounds(s: Seq<char>, i: int)
    requires
        0 <= i <= s.len(),
    ensures
        i <= line_end(s, i) <= s.len(),
    decreases s.len() - i,
{
    if i < s.len() && s[i] != '\n' {
        lemma_line_end_bounds(s, i + 1);
    }
}

/// The shebang line of a file's text, if it has one, and the text that is
/// left to parse: the byte order mark is dropped, and the shebang line is
/// everything before the first line break (or the whole text).
pub open spec fn split_shebang(s: Seq<char>) -> (Option<Seq<char>>, Seq<char>) {
    let t = strip_bom(s);
    if starts_with_shebang(t) {
        let e = line_end(t, 0);
        (Some(t.take(e)), t.skip(e))
    } else {
        (None, t)
    }
}

/// The position of the first `\n` in `t`, or its length.
pub fn find_line_end(t: &str) -> (e: usize)
    ensures
        e == line_end(t@, 0),
{
    let n = t.unicode_len();
    let mut i: usize = 0;
    for c in it: t.chars()
        invariant
            n == t@.len(),
            it.seq() == t@,
            i == it.index(),
            line_end(t@, i as int) == line_end(t@, 0),
    {
        if c == '\n' {
            return i;
        }
        i = i + 1;
    }
    i
}

} // verus!
