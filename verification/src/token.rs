//! Token trees: the input of the template grammar.
//!
//! A template is read as a sequence of token trees in the lexical syntax of Rust. The
//! lexing itself is done by `proc_macro2`; everything after it works on the plain
//! `Token` values defined here.

use proc_macro2::TokenTree;
use vstd::prelude::*;

verus! {

/// The bracket kind of a token group.
#[derive(Clone, Copy, Debug, PartialEq, Eq, Structural)]
pub enum Delimiter {
    /// `( ... )`
    Parenthesis,
    /// `{ ... }`
    Brace,
    /// `[ ... ]`
    Bracket,
    /// A group without visible brackets.
    Implicit,
}

/// Whether a punctuation mark is followed by another without a gap.
#[derive(Clone, Copy, Debug, PartialEq, Eq, Structural)]
pub enum Spacing {
    /// Something other than a punctuation mark follows, or a gap.
    Alone,
    /// The next punctuation mark follows at once, as the second half of `==` does.
    Joint,
}

/// One token tree of template source.
#[derive(Debug, PartialEq, Eq)]
pub enum Token {
    /// A word: a tag name, an attribute name, a keyword.
    Ident(String),
    /// One punctuation character.
    Punct(char, Spacing),
    /// A literal, as written in the source, quotes, escapes and suffix included.
    Literal(String),
    /// A bracketed sequence of token trees.
    Group(Delimiter, Vec<Token>),
}

/// The mathematical value of a `Token`.
pub enum TokenView {
    Ident(Seq<char>),
    Punct(char, Spacing),
    Literal(Seq<char>),
    Group(Delimiter, Seq<TokenView>),
}

/// The values of a sequence of tokens, in order.
pub open spec fn tokens_view(ts: Seq<Token>) -> Seq<TokenView>
    decreases ts, 0nat,
{
    Seq::new(
        ts.len(),
        |i: int|
            if 0 <= i < ts.len() {
                token_view(ts[i])
            } else {
                TokenView::Punct(' ', Spacing::Alone)
            },
    )
}

/// The value of one token.
pub open spec fn token_view(t: Token) -> TokenView
    decreases t, 1nat,
{
    match t {
        Token::Ident(s) => TokenView::Ident(s@),
        Token::Punct(c, spacing) => TokenView::Punct(c, spacing),
        Token::Literal(s) => TokenView::Literal(s@),
        Token::Group(d, inner) => TokenView::Group(d, tokens_view(inner@)),
    }
}

impl View for Token {
    type V = TokenView;

    open spec fn view(&self) -> TokenView {
        token_view(*self)
    }
}

impl TokenView {
    /// Is this the identifier `word`?
    pub open spec fn is_word(self, word: Seq<char>) -> bool {
        self == TokenView::Ident(word)
    }

    /// Is this the punctuation character `c`?
    pub open spec fn is_punct(self, c: char) -> bool {
        self matches TokenView::Punct(p, _) && p == c
    }

    /// Is this a group in the brackets `d`?
    pub open spec fn is_group(self, d: Delimiter) -> bool {
        self matches TokenView::Group(g, _) && g == d
    }

    /// The tokens inside a group; empty for any other token.
    pub open spec fn inner(self) -> Seq<TokenView> {
        match self {
            TokenView::Group(_, inner) => inner,
            _ => Seq::empty(),
        }
    }
}

/// Appending one token to a sequence appends its value to the sequence's value.
pub proof fn lemma_tokens_view_push(ts: Seq<Token>, t: Token)
    ensures
        tokens_view(ts.push(t)) == tokens_view(ts).push(t@),
{
    assert(tokens_view(ts.push(t)) =~= tokens_view(ts).push(t@));
}

impl Token {
    /// A copy of this token.
    pub fn duplicate(&self) -> (out: Token)
        ensures
            out@ == self@,
        decreases self,
    {
        match self {
            Token::Ident(s) => Token::Ident(s.clone()),
            Token::Punct(c, spacing) => Token::Punct(*c, *spacing),
            Token::Literal(s) => Token::Literal(s.clone()),
            Token::Group(d, inner) => Token::Group(*d, duplicate_tokens(inner)),
        }
    }

    /// Do the two tokens have the same value?
    pub fn same(&self, other: &Token) -> (r: bool)
        ensures
            r == (self@ == other@),
        decreases self,
    {
        match (self, other) {
            (Token::Ident(a), Token::Ident(b)) => *a == *b,
            (Token::Punct(a, sa), Token::Punct(b, sb)) => *a == *b && *sa == *sb,
            (Token::Literal(a), Token::Literal(b)) => *a == *b,
            (Token::Group(da, a), Token::Group(db, b)) => {
                let delims = match (da, db) {
                    (Delimiter::Parenthesis, Delimiter::Parenthesis) => true,
                    (Delimiter::Brace, Delimiter::Brace) => true,
                    (Delimiter::Bracket, Delimiter::Bracket) => true,
                    (Delimiter::Implicit, Delimiter::Implicit) => true,
                    _ => false,
                };
                delims && same_tokens(a, b)
            },
            _ => false,
        }
    }

    /// Is this token the identifier `word`?
    pub fn is_ident(&self, word: &str) -> (r: bool)
        ensures
            r == self@.is_word(word@),
    {
        match self {
            Token::Ident(s) => *s.as_str() == *word,
            _ => false,
        }
    }

    /// Is this token the punctuation character `c`?
    pub fn is_punct(&self, c: char) -> (r: bool)
        ensures
            r == self@.is_punct(c),
    {
        match self {
            Token::Punct(p, _) => *p == c,
            _ => false,
        }
    }

    /// Is this token a group in the brackets `d`?
    pub fn is_group(&self, d: Delimiter) -> (r: bool)
        ensures
            r == self@.is_group(d),
    {
        match self {
            Token::Group(g, _) => *g == d,
            _ => false,
        }
    }
}

/// A copy of a token sequence.
pub fn duplicate_tokens(ts: &Vec<Token>) -> (out: Vec<Token>)
    ensures
        tokens_view(out@) == tokens_view(ts@),
    decreases ts,
{
    let mut out: Vec<Token> = Vec::new();
    let mut i: usize = 0;
    while i < ts.len()
        invariant
            i <= ts.len(),
            out.len() == i,
            forall|k: int| 0 <= k < i ==> token_view(out[k]) == token_view(ts[k]),
        decreases ts.len() - i,
    {
        let t = ts[i].duplicate();
        out.push(t);
        i += 1;
    }
    assert(tokens_view(out@) =~= tokens_view(ts@));
    out
}

/// Do the two token sequences have the same value?
pub fn same_tokens(a: &Vec<Token>, b: &Vec<Token>) -> (r: bool)
    ensures
        r == (tokens_view(a@) == tokens_view(b@)),
    decreases a,
{
    if a.len() != b.len() {
        assert(tokens_view(a@).len() != tokens_view(b@).len());
        return false;
    }
    let mut i: usize = 0;
    while i < a.len()
        invariant
            i <= a.len(),
            a.len() == b.len(),
            forall|k: int| 0 <= k < i ==> token_view(a[k]) == token_view(b[k]),
        decreases a.len() - i,
    {
        if !a[i].same(&b[i]) {
            assert(tokens_view(a@)[i as int] != tokens_view(b@)[i as int]);
            return false;
        }
        i += 1;
    }
    assert(tokens_view(a@) =~= tokens_view(b@));
    true
}

/// A token stream of `proc_macro2`, carried through unopened.
#[verifier::external_type_specification]
#[verifier::external_body]
pub struct ExTokenStream(proc_macro2::TokenStream);

/// A token tree of `proc_macro2`, carried through unopened.
#[verifier::external_type_specification]
#[verifier::external_body]
pub struct ExTokenTree(proc_macro2::TokenTree);

/// The error with which `proc_macro2` refuses a source text.
#[verifier::external_type_specification]
#[verifier::external_body]
pub struct ExLexError(proc_macro2::LexError);

/// The token trees that a `proc_macro2` token stream holds, in order.
pub uninterp spec fn stream_contents(stream: proc_macro2::TokenStream) -> Seq<TokenView>;

/// What a `proc_macro2` token tree holds.
pub uninterp spec fn tree_contents(tree: proc_macro2::TokenTree) -> TokenView;

/// The token trees into which `proc_macro2` lexes a source text; `None` where it refuses
/// the text (an unbalanced bracket, a character outside the lexical syntax).
pub uninterp spec fn lexed(text: Seq<char>) -> Option<Seq<TokenView>>;

/// One token tree taken apart: a leaf by its plain values, a group by its brackets and
/// its stream, which is still unopened.
enum Opened {
    Ident(String),
    Punct(char, Spacing),
    Literal(String),
    Group(Delimiter, proc_macro2::TokenStream),
}

impl Opened {
    /// What the token tree that was taken apart holds.
    spec fn contents(self) -> TokenView {
        match self {
            Opened::Ident(word) => TokenView::Ident(word@),
            Opened::Punct(c, spacing) => TokenView::Punct(c, spacing),
            Opened::Literal(repr) => TokenView::Literal(repr@),
            Opened::Group(d, inner) => TokenView::Group(d, stream_contents(inner)),
        }
    }
}

/// Calls `proc_macro2::TokenStream::from_str`. The contract gives the outcome its name:
/// on success the stream holds `lexed` of the text, and the call fails exactly where
/// `lexed` is `None`.
#[verifier::external_body]
fn parse_stream(text: &str) -> (out: Result<proc_macro2::TokenStream, proc_macro2::LexError>)
    ensures
        match out {
            Ok(stream) => lexed(text@) == Some(stream_contents(stream)),
            Err(_) => lexed(text@) is None,
        },
{
    core::str::FromStr::from_str(text)
}

/// Collects what the iterator of a `proc_macro2::TokenStream` yields: the token trees of
/// the stream, in order.
#[verifier::external_body]
fn stream_trees(stream: proc_macro2::TokenStream) -> (out: Vec<proc_macro2::TokenTree>)
    ensures
        out@.len() == stream_contents(stream).len(),
        forall|i: int|
            0 <= i < out@.len() ==> tree_contents(#[trigger] out@[i]) == stream_contents(stream)[i],
{
    stream.into_iter().collect()
}

/// Takes one `proc_macro2::TokenTree` apart: an identifier and a literal by their
/// `to_string`, a punctuation mark by `as_char` and `spacing`, a group by its `delimiter`
/// and its `stream`.
#[verifier::external_body]
fn open_tree(tree: &proc_macro2::TokenTree) -> (out: Opened)
    ensures
        out.contents() == tree_contents(*tree),
{
    match tree {
        TokenTree::Ident(i) => Opened::Ident(i.to_string()),
        TokenTree::Punct(p) => Opened::Punct(p.as_char(), match p.spacing() {
            proc_macro2::Spacing::Alone => Spacing::Alone,
            proc_macro2::Spacing::Joint => Spacing::Joint,
        }),
        TokenTree::Literal(l) => Opened::Literal(l.to_string()),
        TokenTree::Group(g) => Opened::Group(match g.delimiter() {
            proc_macro2::Delimiter::Parenthesis => Delimiter::Parenthesis,
            proc_macro2::Delimiter::Brace => Delimiter::Brace,
            proc_macro2::Delimiter::Bracket => Delimiter::Bracket,
            proc_macro2::Delimiter::None => Delimiter::Implicit,
        }, g.stream()),
    }
}

/// The token trees of a `proc_macro2` token stream as plain values, the streams of its
/// groups opened in turn.
#[verifier::loop_isolation(false)]
pub fn stream_tokens(stream: proc_macro2::TokenStream) -> (out: Vec<Token>)
    ensures
        tokens_view(out@) == stream_contents(stream),
    decreases stream_contents(stream),
{
    let ghost contents = stream_contents(stream);
    let trees = stream_trees(stream);
    let mut out: Vec<Token> = Vec::new();
    let mut i: usize = 0;
    while i < trees.len()
        invariant
            i <= trees.len(),
            out.len() == i,
            trees@.len() == contents.len(),
            forall|k: int| 0 <= k < trees@.len() ==> tree_contents(#[trigger] trees@[k]) == contents[k],
            forall|k: int| 0 <= k < i ==> token_view(out[k]) == contents[k],
        decreases trees.len() - i,
    {
        let token = match open_tree(&trees[i]) {
            Opened::Ident(word) => Token::Ident(word),
            Opened::Punct(c, spacing) => Token::Punct(c, spacing),
            Opened::Literal(repr) => Token::Literal(repr),
            Opened::Group(d, inner) => {
                proof {
                    let group = contents[i as int];
                    assert(group == TokenView::Group(d, stream_contents(inner)));
                    assert(decreases_to!(contents => group));
                    match group {
                        TokenView::Group(_, held) => {
                            assert(decreases_to!(group => held));
                            assert(held == stream_contents(inner));
                        },
                        _ => {},
                    }
                }
                Token::Group(d, stream_tokens(inner))
            },
        };
        out.push(token);
        i += 1;
    }
    assert(tokens_view(out@) =~= contents);
    out
}

/// The text could not be split into token trees.
#[derive(Clone, Copy, Debug, PartialEq, Eq, Structural)]
pub struct TokenizeError;

/// Splits a source text into token trees.
pub fn tokenize(text: &str) -> (out: Result<Vec<Token>, TokenizeError>)
    ensures
        match out {
            Ok(ts) => lexed(text@) == Some(tokens_view(ts@)),
            Err(_) => lexed(text@) is None,
        },
{
    match parse_stream(text) {
        Ok(stream) => Ok(stream_tokens(stream)),
        Err(_) => Err(TokenizeError),
    }
}

} // verus!
