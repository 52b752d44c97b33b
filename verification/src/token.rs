use vstd::prelude::*;

verus! {

/// The delimiter shape around a `Token::Group`.
#[derive(Clone, Copy, PartialEq, Eq, Structural, Debug)]
pub enum Delim {
    Parenthesis,
    Bracket,
    Brace,
    /// A group with no visible delimiters around it.
    NoDelim,
}

/// Whether a punctuation character is lexically glued to the token after it.
///
/// `Joint` means there is no separation before the next punctuation token,
/// which is how multi-character operators such as `&&` are detected.
#[derive(Clone, Copy, PartialEq, Eq, Structural, Debug)]
pub enum Spacing {
    Alone,
    Joint,
}

/// One lexical token. A `Group` owns its inner sequence exclusively.
pub enum Token {
    Group { delim: Delim, inner: Vec<Token> },
    Ident { text: String },
    Punct { ch: char, spacing: Spacing },
    Literal { text: String },
}

/// The mathematical model of a token: the same tree, with mathematical
/// sequences in place of vectors and strings. All contracts speak of it.
pub enum Tok {
    Group(Delim, Seq<Tok>),
    Ident(Seq<char>),
    Punct(char, Spacing),
    Literal(Seq<char>),
}

/// Why a rewrite was refused. Every error is fatal for the whole rewrite:
/// a wrong rewrite would silently change program meaning, so unsupported
/// input is rejected rather than guessed at.
#[derive(Clone, Copy, PartialEq, Eq, Structural, Debug)]
pub enum RewriteError {
    /// A trigger was found with no token before it to serve as receiver.
    EmptyReceiver,
    /// A punctuation character outside the supported restricted grammar.
    UnsupportedPunctuation(char),
    /// A delimiter-less group where a binary-operator partner was sought.
    UnsupportedDelimiter,
    /// The resolved binary-operator chain starts with an identifier,
    /// which would indicate pattern rather than expression context.
    MalformedBinopStart,
}

/// The model of one token.
pub open spec fn view_token(t: Token) -> Tok
    decreases t, 0int,
{
    match t {
        Token::Group { delim, inner } => Tok::Group(delim, view_tokens(inner@)),
        Token::Ident { text } => Tok::Ident(text@),
        Token::Punct { ch, spacing } => Tok::Punct(ch, spacing),
        Token::Literal { text } => Tok::Literal(text@),
    }
}

/// The model of a token sequence, element by element.
pub open spec fn view_tokens(ts: Seq<Token>) -> Seq<Tok>
    decreases ts, 1int,
{
    if ts.len() == 0 {
        Seq::empty()
    } else {
        seq![view_token(ts[0])] + view_tokens(ts.subrange(1, ts.len() as int))
    }
}

pub broadcast proof fn lemma_view_tokens_len(ts: Seq<Token>)
    ensures
        (#[trigger] view_tokens(ts)).len() == ts.len(),
    decreases ts.len(),
{
    if ts.len() > 0 {
        lemma_view_tokens_len(ts.subrange(1, ts.len() as int));
    }
}

pub broadcast proof fn lemma_view_tokens_index(ts: Seq<Token>, i: int)
    requires
        0 <= i < ts.len(),
    ensures
        #[trigger] view_tokens(ts)[i] == view_token(ts[i]),
    decreases ts.len(),
{
    lemma_view_tokens_len(ts);
    if i > 0 {
        lemma_view_tokens_index(ts.subrange(1, ts.len() as int), i - 1);
    }
}

pub proof fn lemma_view_tokens_add(a: Seq<Token>, b: Seq<Token>)
    ensures
        view_tokens(a + b) == view_tokens(a) + view_tokens(b),
{
    broadcast use lemma_view_tokens_len, lemma_view_tokens_index;

    assert(view_tokens(a + b) =~= view_tokens(a) + view_tokens(b));
}

pub proof fn lemma_view_tokens_subrange(ts: Seq<Token>, i: int, j: int)
    requires
        0 <= i <= j <= ts.len(),
    ensures
        view_tokens(ts.subrange(i, j)) == view_tokens(ts).subrange(i, j),
{
    broadcast use lemma_view_tokens_len, lemma_view_tokens_index;

    assert(view_tokens(ts.subrange(i, j)) =~= view_tokens(ts).subrange(i, j));
}

/// A structural copy of a token tree; the copy has the same model.
pub fn copy_token(t: &Token) -> (r: Token)
    ensures
        view_token(r) == view_token(*t),
    decreases *t,
{
    match t {
        Token::Group { delim, inner } => {
            let copied = copy_tokens(inner);
            Token::Group { delim: *delim, inner: copied }
        },
        Token::Ident { text } => Token::Ident { text: text.clone() },
        Token::Punct { ch, spacing } => Token::Punct { ch: *ch, spacing: *spacing },
        Token::Literal { text } => Token::Literal { text: text.clone() },
    }
}

/// A structural copy of a token sequence; the copy has the same model.
pub fn copy_tokens(ts: &Vec<Token>) -> (r: Vec<Token>)
    ensures
        view_tokens(r@) == view_tokens(ts@),
    decreases ts@,
{
    broadcast use lemma_view_tokens_len, lemma_view_tokens_index;

    let mut acc: Vec<Token> = Vec::new();
    let mut j: usize = 0;
    while j < ts.len()
        invariant
            j <= ts.len(),
            acc@.len() == j,
            forall|k: int| 0 <= k < j ==> view_token(acc@[k]) == view_token(ts@[k]),
        decreases ts.len() - j,
    {
        proof {
            assert(decreases_to!(ts@ => ts@[j as int]));
        }
        let c = copy_token(&ts[j]);
        acc.push(c);
        j += 1;
    }
    proof {
        assert(view_tokens(acc@) =~= view_tokens(ts@));
    }
    acc
}

/// Structural equality of two tokens, decided over their models.
pub fn token_eq(a: &Token, b: &Token) -> (r: bool)
    ensures
        r == (view_token(*a) == view_token(*b)),
    decreases *a,
{
    match a {
        Token::Group { delim: d1, inner: i1 } => match b {
            Token::Group { delim: d2, inner: i2 } => *d1 == *d2 && tokens_eq(i1, i2),
            _ => false,
        },
        Token::Ident { text: t1 } => match b {
            Token::Ident { text: t2 } => *t1 == *t2,
            _ => false,
        },
        Token::Punct { ch: c1, spacing: s1 } => match b {
            Token::Punct { ch: c2, spacing: s2 } => *c1 == *c2 && *s1 == *s2,
            _ => false,
        },
        Token::Literal { text: t1 } => match b {
            Token::Literal { text: t2 } => *t1 == *t2,
            _ => false,
        },
    }
}

/// Structural equality of two token sequences, decided over their models.
pub fn tokens_eq(a: &Vec<Token>, b: &Vec<Token>) -> (r: bool)
    ensures
        r == (view_tokens(a@) == view_tokens(b@)),
    decreases a@,
{
    broadcast use lemma_view_tokens_len, lemma_view_tokens_index;

    if a.len() != b.len() {
        return false;
    }
    let mut j: usize = 0;
    while j < a.len()
        invariant
            j <= a.len(),
            a@.len() == b@.len(),
            forall|k: int| 0 <= k < j ==> view_token(a@[k]) == view_token(b@[k]),
        decreases a.len() - j,
    {
        proof {
            assert(decreases_to!(a@ => a@[j as int]));
        }
        if !token_eq(&a[j], &b[j]) {
            proof {
                lemma_view_tokens_len(a@);
                lemma_view_tokens_len(b@);
                lemma_view_tokens_index(a@, j as int);
                lemma_view_tokens_index(b@, j as int);
                assert(view_tokens(a@)[j as int] != view_tokens(b@)[j as int]);
            }
            return false;
        }
        j += 1;
    }
    proof {
        assert(view_tokens(a@) =~= view_tokens(b@));
    }
    true
}

} // verus!
