use vstd::prelude::*;

verus! {

/// How a group of tokens is delimited.
#[derive(Clone, Copy, Debug, PartialEq, Eq, Structural)]
pub enum Delimiter {
    /// `( ... )`
    Parenthesis,
    /// `{ ... }`
    Brace,
    /// `[ ... ]`
    Bracket,
    /// An invisible delimiter.
    Invisible,
}

/// Whether a punctuation character is immediately followed by another one.
#[derive(Clone, Copy, Debug, PartialEq, Eq, Structural)]
pub enum Spacing {
    Alone,
    Joint,
}

/// One entry of a flattened token buffer.
///
/// A delimited group `( ... )` appears as `Open(Parenthesis)`, the entries of
/// its contents, and `Close(Parenthesis)`.
#[derive(Clone, Debug, PartialEq, Eq)]
pub enum Token {
    Open(Delimiter),
    Close(Delimiter),
    Ident(String),
    Punct(char, Spacing),
    Literal(String),
}

/// The mathematical value of a [`Token`].
pub enum TokenView {
    Open(Delimiter),
    Close(Delimiter),
    Ident(Seq<char>),
    Punct(char, Spacing),
    Literal(Seq<char>),
}

impl View for Token {
    type V = TokenView;

    open spec fn view(&self) -> TokenView {
        match self {
            Token::Open(d) => TokenView::Open(*d),
            Token::Close(d) => TokenView::Close(*d),
            Token::Ident(s) => TokenView::Ident(s@),
            Token::Punct(c, sp) => TokenView::Punct(*c, *sp),
            Token::Literal(s) => TokenView::Literal(s@),
        }
    }
}

/// The values of a sequence of tokens.
pub open spec fn tokens_view(v: Seq<Token>) -> Seq<TokenView> {
    v.map_values(|t: Token| t@)
}

/// Pushing a token pushes its value.
pub proof fn lemma_tokens_view_push(v: Seq<Token>, t: Token)
    ensures
        tokens_view(v.push(t)) == tokens_view(v).push(t@),
{
    assert(tokens_view(v.push(t)) =~= tokens_view(v).push(t@));
}

/// Whether `t` is the punctuation character `c`, whatever its spacing.
pub open spec fn is_punct(t: TokenView, c: char) -> bool {
    t matches TokenView::Punct(ch, _) && ch == c
}

impl Token {
    /// A copy of the token.
    pub fn duplicate(&self) -> (r: Token)
        ensures
            r@ == self@,
    {
        match self {
            Token::Open(d) => Token::Open(*d),
            Token::Close(d) => Token::Close(*d),
            Token::Ident(s) => Token::Ident(s.clone()),
            Token::Punct(c, sp) => Token::Punct(*c, *sp),
            Token::Literal(s) => Token::Literal(s.clone()),
        }
    }

    /// Whether the token is the punctuation character `c`.
    pub fn is_punct(&self, c: char) -> (r: bool)
        ensures
            r == is_punct(self@, c),
    {
        match self {
            Token::Punct(ch, _) => *ch == c,
            _ => false,
        }
    }
}

/// Copies `tokens[from..to]` into a new vector.
pub fn copy_range(tokens: &Vec<Token>, from: usize, to: usize) -> (r: Vec<Token>)
    requires
        from <= to <= tokens.len(),
    ensures
        tokens_view(r@) == tokens_view(tokens@).subrange(from as int, to as int),
{
    let mut r: Vec<Token> = Vec::new();
    let mut i: usize = from;
    while i < to
        invariant
            from <= i <= to <= tokens.len(),
            tokens_view(r@) == tokens_view(tokens@).subrange(from as int, i as int),
        decreases to - i,
    {
        let t = tokens[i].duplicate();
        let ghost old_r = r@;
        r.push(t);
        assert(tokens_view(r@) =~= tokens_view(old_r).push(tokens@[i as int]@));
        i = i + 1;
        assert(tokens_view(r@) =~= tokens_view(tokens@).subrange(from as int, i as int));
    }
    r
}

} // verus!
