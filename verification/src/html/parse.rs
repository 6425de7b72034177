//! The recursive-descent parser: token trees to a markup tree.
//!
//! Every executable function here has a specification function beside it that says, over
//! the values of the tokens, what it returns and where it stops.

use crate::escape::{escape_string, escaped};
use crate::html::literal::{literal_fragment, negative_fragment};
use crate::html::syntax::{
    arms_view, attrs_view, branches_view, lits_view, markups_view, Arm, ArmView, Branch, BranchView,
    External, InterpMarkupExpr, InterpValue, InterpValueType, InterpValueView, Markup, MarkupId,
    MarkupIdView, MarkupLit, MarkupLitView, MarkupView, SlotView, TagAttribute, TagAttributeView,
};
use crate::token::{
    duplicate_tokens, lemma_tokens_view_push, tokens_view, Delimiter, Token, TokenView,
};
use vstd::prelude::*;
use vstd::string::*;

verus! {

/// The kinds of error that end the compilation of a template.
#[derive(Clone, Copy, Debug, PartialEq, Eq, Structural)]
pub enum ErrorKind {
    /// A token or a group stands where the grammar has no use for it, or the input ends
    /// inside a tag.
    Grammar,
    /// The input ends before the body of a `@match`, `@if` or `@for`.
    Unterminated,
    /// A literal of a kind that has no text.
    UnsupportedLiteral,
}

/// An error, and where it is: `at` leads to the offending token, by its index in the
/// template's token sequence and then, for a token inside groups, by the index within each
/// group in turn.
#[derive(Debug, PartialEq, Eq)]
pub struct ParseError {
    pub kind: ErrorKind,
    pub at: Vec<usize>,
}

pub struct ParseErrorView {
    pub kind: ErrorKind,
    pub at: Seq<usize>,
}

impl View for ParseError {
    type V = ParseErrorView;

    open spec fn view(&self) -> ParseErrorView {
        ParseErrorView { kind: self.kind, at: self.at@ }
    }
}

/// The error of kind `kind` at the token with index `pos`.
pub open spec fn error_at(kind: ErrorKind, pos: int) -> ParseErrorView {
    ParseErrorView { kind, at: seq![pos as usize] }
}

/// The error `e`, found inside the group with index `pos`.
pub open spec fn nested(e: ParseErrorView, pos: int) -> ParseErrorView {
    ParseErrorView { kind: e.kind, at: seq![pos as usize] + e.at }
}

impl ParseError {
    /// The error of kind `kind` at the token with index `pos`.
    pub fn new(kind: ErrorKind, pos: usize) -> (out: ParseError)
        ensures
            out@ == error_at(kind, pos as int),
    {
        let mut at: Vec<usize> = Vec::new();
        at.push(pos);
        assert(at@ =~= seq![pos]);
        ParseError { kind, at }
    }

    /// This error, found inside the group with index `pos`.
    pub fn inside(self, pos: usize) -> (out: ParseError)
        ensures
            out@ == nested(self@, pos as int),
    {
        let mut at = self.at;
        at.insert(0, pos);
        assert(at@ =~= seq![pos] + self.at@);
        ParseError { kind: self.kind, at }
    }
}

/// Is `t` one of the words `true` and `false`?
pub open spec fn is_bool_word(t: TokenView) -> bool {
    t.is_word("true"@) || t.is_word("false"@)
}

/// The hyphens and words that continue a name from `pos` on, and where they end. After a
/// hyphen a word may follow; after a word only a hyphen continues the name.
pub open spec fn spec_ident_rest(ts: Seq<TokenView>, pos: int, word_may_follow: bool) -> (
    Seq<char>,
    int,
)
    decreases ts.len() - pos,
{
    if 0 <= pos < ts.len() {
        match ts[pos] {
            TokenView::Punct(c, _) if c == '-' => {
                let (rest, end) = spec_ident_rest(ts, pos + 1, true);
                (seq!['-'] + rest, end)
            },
            TokenView::Ident(word) if word_may_follow => {
                let (rest, end) = spec_ident_rest(ts, pos + 1, false);
                (word + rest, end)
            },
            _ => (Seq::empty(), pos),
        }
    } else {
        (Seq::empty(), pos)
    }
}

/// The name that starts with the word at `pos`, and where it ends.
pub open spec fn spec_parse_ident(ts: Seq<TokenView>, pos: int) -> (MarkupIdView, int)
    recommends
        0 <= pos < ts.len(),
        ts[pos] is Ident,
{
    let (rest, end) = spec_ident_rest(ts, pos + 1, false);
    if rest.len() == 0 {
        (MarkupIdView::Basic(ts[pos]->Ident_0), end)
    } else {
        (MarkupIdView::Complex(ts[pos]->Ident_0, rest), end)
    }
}

/// A name ends after its first word or later, and within the tokens.
pub proof fn lemma_ident_rest_bounds(ts: Seq<TokenView>, pos: int, word_may_follow: bool)
    requires
        0 <= pos <= ts.len(),
    ensures
        pos <= spec_ident_rest(ts, pos, word_may_follow).1 <= ts.len(),
    decreases ts.len() - pos,
{
    if pos < ts.len() {
        match ts[pos] {
            TokenView::Punct(c, _) if c == '-' => {
                lemma_ident_rest_bounds(ts, pos + 1, true);
            },
            TokenView::Ident(word) if word_may_follow => {
                lemma_ident_rest_bounds(ts, pos + 1, false);
            },
            _ => {},
        }
    }
}

/// The literal at `pos`, if one stands there, and where it ends: a literal token; a minus
/// sign and a number; or one of the words `true` and `false`.
pub open spec fn spec_parse_literal(ts: Seq<TokenView>, pos: int) -> Result<
    Option<(MarkupLitView, int)>,
    ParseErrorView,
> {
    if 0 <= pos < ts.len() {
        match ts[pos] {
            TokenView::Literal(repr) => match literal_fragment(repr) {
                Some(lit) => Ok(Some((lit, pos + 1))),
                None => Err(error_at(ErrorKind::UnsupportedLiteral, pos)),
            },
            TokenView::Punct(c, _) => if c == '-' && pos + 1 < ts.len() && ts[pos + 1] is Literal {
                match negative_fragment(ts[pos + 1]->Literal_0) {
                    Some(lit) => Ok(Some((lit, pos + 2))),
                    None => Err(error_at(ErrorKind::Grammar, pos)),
                }
            } else {
                Ok(None)
            },
            TokenView::Ident(word) => if is_bool_word(ts[pos]) {
                Ok(Some((MarkupLitView::Basic(word), pos + 1)))
            } else {
                Ok(None)
            },
            _ => Ok(None),
        }
    } else {
        Ok(None)
    }
}

/// The literals from `pos` on, with the semicolons between and behind them passed over,
/// and where they end.
pub open spec fn spec_parse_literal_seq(ts: Seq<TokenView>, pos: int) -> Result<
    (Seq<MarkupLitView>, int),
    ParseErrorView,
>
    decreases ts.len() - pos,
{
    if 0 <= pos < ts.len() && ts[pos].is_punct(';') {
        spec_parse_literal_seq(ts, pos + 1)
    } else {
        match spec_parse_literal(ts, pos) {
            Err(e) => Err(e),
            Ok(None) => Ok((Seq::empty(), pos)),
            Ok(Some((lit, next))) => match spec_parse_literal_seq(ts, next) {
                Err(e) => Err(e),
                Ok((rest, end)) => Ok((seq![lit] + rest, end)),
            },
        }
    }
}

/// `found` put in front of what a continued parse of literals returns.
pub open spec fn with_literals(
    found: Seq<MarkupLitView>,
    rest: Result<(Seq<MarkupLitView>, int), ParseErrorView>,
) -> Result<(Seq<MarkupLitView>, int), ParseErrorView> {
    match rest {
        Err(e) => Err(e),
        Ok((more, end)) => Ok((found + more, end)),
    }
}

/// How an attribute list goes on after one step.
#[derive(Clone, Copy, Debug, PartialEq, Eq, Structural)]
pub enum Ending {
    /// More attributes may follow.
    Open,
    /// The tag closed itself with `;`.
    Closed,
    /// The tag's body is the brace group with this index.
    Body(usize),
}

/// Is `c` one of the characters that open a shorthand attribute or a spread?
pub open spec fn is_shorthand_char(c: char) -> bool {
    c == '.' || c == '#' || c == '@'
}

/// The attribute name that a shorthand character stands for.
pub open spec fn shorthand_name(c: char) -> MarkupIdView {
    if c == '.' {
        MarkupIdView::Basic("class"@)
    } else {
        MarkupIdView::Basic("id"@)
    }
}

/// The interpolated attribute written as the character `c` and a group in the brackets
/// `d` holding `inner`, on the tag `tag`: `.` and `#` give `class` and `id`, `@` a spread;
/// round brackets take the value itself, square brackets an optional one. Other pairs are
/// no attribute.
pub open spec fn spec_shorthand(
    c: char,
    d: Delimiter,
    inner: Seq<TokenView>,
    tag: MarkupIdView,
) -> Option<TagAttributeView> {
    let wrapper = if d == Delimiter::Parenthesis {
        InterpValueType::Direct
    } else {
        InterpValueType::Optional
    };
    if d != Delimiter::Parenthesis && d != Delimiter::Bracket {
        None
    } else if c == '.' || c == '#' {
        Some(
            TagAttributeView::Interpolated {
                kind: InterpValueView::NameValue { name: shorthand_name(c), wrapper },
                value: inner,
            },
        )
    } else if c == '@' {
        Some(
            TagAttributeView::Interpolated {
                kind: InterpValueView::Spread { tag, wrapper },
                value: inner,
            },
        )
    } else {
        None
    }
}

/// What follows an attribute's name `name`, whose last token stands before `pos`: the
/// attribute, how the list goes on, and where the step ends.
pub open spec fn spec_named_attr(ts: Seq<TokenView>, pos: int, name: MarkupIdView) -> Result<
    (Option<TagAttributeView>, Ending, int),
    ParseErrorView,
> {
    let bare = TagAttributeView::Lit { name, value: None };
    if 0 <= pos < ts.len() {
        match ts[pos] {
            TokenView::Punct(c, _) => if c == '=' {
                if pos + 1 < ts.len() && ts[pos + 1].is_group(Delimiter::Parenthesis) {
                    Ok(
                        (
                            Some(
                                TagAttributeView::Interpolated {
                                    kind: InterpValueView::NameValue {
                                        name,
                                        wrapper: InterpValueType::Direct,
                                    },
                                    value: ts[pos + 1].inner(),
                                },
                            ),
                            Ending::Open,
                            pos + 2,
                        ),
                    )
                } else if pos + 1 < ts.len() && ts[pos + 1].is_group(Delimiter::Bracket) {
                    Ok(
                        (
                            Some(
                                TagAttributeView::Interpolated {
                                    kind: InterpValueView::NameValue {
                                        name,
                                        wrapper: InterpValueType::Optional,
                                    },
                                    value: ts[pos + 1].inner(),
                                },
                            ),
                            Ending::Open,
                            pos + 2,
                        ),
                    )
                } else if pos + 1 >= ts.len() {
                    Err(error_at(ErrorKind::Grammar, pos))
                } else if ts[pos + 1] is Group {
                    Err(error_at(ErrorKind::Grammar, pos + 1))
                } else {
                    match spec_parse_literal(ts, pos + 1) {
                        Err(e) => Err(e),
                        Ok(None) => Err(error_at(ErrorKind::Grammar, pos)),
                        Ok(Some((lit, next))) => Ok(
                            (
                                Some(TagAttributeView::Lit { name, value: Some(lit) }),
                                Ending::Open,
                                next,
                            ),
                        ),
                    }
                }
            } else if c == ';' {
                Ok((Some(bare), Ending::Closed, pos + 1))
            } else if is_shorthand_char(c) {
                Ok((Some(bare), Ending::Open, pos))
            } else {
                Err(error_at(ErrorKind::Grammar, pos))
            },
            TokenView::Group(d, inner) => if d == Delimiter::Bracket {
                Ok(
                    (
                        Some(
                            TagAttributeView::Interpolated {
                                kind: InterpValueView::Toggle { name },
                                value: inner,
                            },
                        ),
                        Ending::Open,
                        pos + 1,
                    ),
                )
            } else if d == Delimiter::Brace {
                Ok((Some(bare), Ending::Body(pos as usize), pos + 1))
            } else {
                Err(error_at(ErrorKind::Grammar, pos))
            },
            TokenView::Ident(_) => Ok((Some(bare), Ending::Open, pos)),
            TokenView::Literal(_) => Err(error_at(ErrorKind::Grammar, pos)),
        }
    } else {
        Err(error_at(ErrorKind::Grammar, pos))
    }
}

/// One step through the attribute list of the tag `tag`, from `pos`: the attribute read,
/// if any, how the list goes on, and where the step ends.
pub open spec fn spec_parse_attr(ts: Seq<TokenView>, pos: int, tag: MarkupIdView) -> Result<
    (Option<TagAttributeView>, Ending, int),
    ParseErrorView,
> {
    if 0 <= pos < ts.len() {
        match ts[pos] {
            TokenView::Punct(c, _) => if c == ';' {
                Ok((None, Ending::Closed, pos + 1))
            } else if is_shorthand_char(c) && pos + 1 < ts.len() && ts[pos + 1] is Group {
                match spec_shorthand(c, ts[pos + 1]->Group_0, ts[pos + 1]->Group_1, tag) {
                    Some(attr) => Ok((Some(attr), Ending::Open, pos + 2)),
                    None => Err(error_at(ErrorKind::Grammar, pos)),
                }
            } else if (c == '.' || c == '#') && pos + 1 < ts.len() && ts[pos + 1] is Ident {
                let (id, next) = spec_parse_ident(ts, pos + 1);
                Ok(
                    (
                        Some(
                            TagAttributeView::Lit {
                                name: shorthand_name(c),
                                value: Some(MarkupLitView::Basic(escaped(id.text()))),
                            },
                        ),
                        Ending::Open,
                        next,
                    ),
                )
            } else if c == '.' || c == '#' {
                match spec_parse_literal(ts, pos + 1) {
                    Err(e) => Err(e),
                    Ok(None) => Err(error_at(ErrorKind::Grammar, pos)),
                    Ok(Some((lit, next))) => Ok(
                        (
                            Some(
                                TagAttributeView::Lit { name: shorthand_name(c), value: Some(lit) },
                            ),
                            Ending::Open,
                            next,
                        ),
                    ),
                }
            } else {
                Err(error_at(ErrorKind::Grammar, pos))
            },
            TokenView::Group(d, _) => if d == Delimiter::Brace {
                Ok((None, Ending::Body(pos as usize), pos + 1))
            } else {
                Err(error_at(ErrorKind::Grammar, pos))
            },
            TokenView::Ident(_) => {
                let (name, next) = spec_parse_ident(ts, pos);
                spec_named_attr(ts, next, name)
            },
            TokenView::Literal(_) => Err(error_at(ErrorKind::Grammar, pos)),
        }
    } else {
        Err(error_at(ErrorKind::Grammar, pos))
    }
}

/// The attribute of a step, as a sequence of none or one.
pub open spec fn step_attrs(attr: Option<TagAttributeView>) -> Seq<TagAttributeView> {
    match attr {
        Some(a) => seq![a],
        None => Seq::empty(),
    }
}

/// `found` put in front of what a continued parse of attributes returns.
pub open spec fn with_attrs(
    found: Seq<TagAttributeView>,
    rest: Result<(Seq<TagAttributeView>, Option<usize>, int), ParseErrorView>,
) -> Result<(Seq<TagAttributeView>, Option<usize>, int), ParseErrorView> {
    match rest {
        Err(e) => Err(e),
        Ok((more, body, end)) => Ok((found + more, body, end)),
    }
}

/// The attribute list of the tag `tag` from `pos` on: its attributes in order, the index
/// of the brace group that is the tag's body (`None` for a tag that closes itself), and
/// where the list ends.
pub open spec fn spec_parse_attrs(ts: Seq<TokenView>, pos: int, tag: MarkupIdView) -> Result<
    (Seq<TagAttributeView>, Option<usize>, int),
    ParseErrorView,
>
    decreases ts.len() - pos,
{
    match spec_parse_attr(ts, pos, tag) {
        Err(e) => Err(e),
        Ok((attr, ending, next)) => match ending {
            Ending::Closed => Ok((step_attrs(attr), None, next)),
            Ending::Body(body) => Ok((step_attrs(attr), Some(body), next)),
            Ending::Open => if pos < next <= ts.len() {
                with_attrs(step_attrs(attr), spec_parse_attrs(ts, next, tag))
            } else {
                Err(error_at(ErrorKind::Grammar, pos))
            },
        },
    }
}

/// What a scan through host tokens stops at.
#[derive(Clone, Copy, Debug, PartialEq, Eq, Structural)]
pub enum Mark {
    /// The next brace group.
    Brace,
    /// The next word `in`.
    In,
}

/// Does the scan for `mark` stop at the token `t`?
pub open spec fn is_mark(t: TokenView, mark: Mark) -> bool {
    match mark {
        Mark::Brace => t.is_group(Delimiter::Brace),
        Mark::In => t.is_word("in"@),
    }
}

/// The index of the first token at or behind `pos` at which the scan for `mark` stops;
/// the number of tokens if there is none.
pub open spec fn spec_scan(ts: Seq<TokenView>, pos: int, mark: Mark) -> int
    decreases ts.len() - pos,
{
    if 0 <= pos < ts.len() {
        if is_mark(ts[pos], mark) {
            pos
        } else {
            spec_scan(ts, pos + 1, mark)
        }
    } else {
        ts.len() as int
    }
}

/// A scan stops at or behind its start, and no later than the end.
pub proof fn lemma_scan_bounds(ts: Seq<TokenView>, pos: int, mark: Mark)
    requires
        0 <= pos <= ts.len(),
    ensures
        pos <= spec_scan(ts, pos, mark) <= ts.len(),
        spec_scan(ts, pos, mark) < ts.len() ==> is_mark(ts[spec_scan(ts, pos, mark)], mark),
    decreases ts.len() - pos,
{
    if pos < ts.len() && !is_mark(ts[pos], mark) {
        lemma_scan_bounds(ts, pos + 1, mark);
    }
}

/// The tag that a shorthand attribute at the start of a statement belongs to.
pub open spec fn unnamed_tag() -> MarkupIdView {
    MarkupIdView::Basic(crate::html::UNNAMED_TAG@)
}

/// Does an arm's `=>` and body group stand at `pos`?
pub open spec fn is_arrow_at(ts: Seq<TokenView>, pos: int) -> bool {
    &&& 0 <= pos
    &&& pos + 2 < ts.len()
    &&& ts[pos].is_punct('=')
    &&& ts[pos + 1].is_punct('>')
    &&& ts[pos + 2].is_group(Delimiter::Brace)
}

/// The nodes inside the group with index `i`. An error found there is reported inside
/// that group.
pub open spec fn spec_group_nodes(ts: Seq<TokenView>, i: int) -> Result<
    Seq<MarkupView>,
    ParseErrorView,
>
    decreases ts, 0nat, 0nat,
{
    if 0 <= i < ts.len() {
        match ts[i] {
            TokenView::Group(_, inner) => match spec_parse_nodes(inner, 0) {
                Ok(nodes) => Ok(nodes),
                Err(e) => Err(nested(e, i)),
            },
            _ => Err(error_at(ErrorKind::Grammar, i)),
        }
    } else {
        Err(error_at(ErrorKind::Grammar, i))
    }
}

/// The tag `tag` whose attribute list starts at `pos`, and where it ends.
pub open spec fn spec_tag(ts: Seq<TokenView>, pos: int, tag: MarkupIdView) -> Result<
    (MarkupView, int),
    ParseErrorView,
>
    decreases ts, 0nat, 1nat,
{
    match spec_parse_attrs(ts, pos, tag) {
        Err(e) => Err(e),
        Ok((attrs, body, end)) => match body {
            None => Ok((MarkupView::Tag { tag, attrs, inner: None }, end)),
            Some(b) => match spec_group_nodes(ts, b as int) {
                Err(e) => Err(e),
                Ok(children) => Ok((MarkupView::Tag { tag, attrs, inner: Some(children) }, end)),
            },
        },
    }
}

/// The arms of a `@match` from `pos` on, in the tokens `ts` of its block. `start` is where
/// the pattern being read began. A pattern runs up to `=>` before a brace group; a comma
/// in front of a pattern separates arms and belongs to none; tokens behind the last arm
/// are dropped.
pub open spec fn spec_arms(ts: Seq<TokenView>, pos: int, start: int) -> Result<
    Seq<ArmView>,
    ParseErrorView,
>
    decreases ts, ts.len() - pos, 1nat,
{
    if 0 <= start <= pos < ts.len() {
        if is_arrow_at(ts, pos) {
            match spec_group_nodes(ts, pos + 2) {
                Err(e) => Err(e),
                Ok(body) => match spec_arms(ts, pos + 3, pos + 3) {
                    Err(e) => Err(e),
                    Ok(rest) => Ok(
                        seq![ArmView { pattern: ts.subrange(start, pos), body }] + rest,
                    ),
                },
            }
        } else if pos == start && ts[pos].is_punct(',') {
            spec_arms(ts, pos + 1, pos + 1)
        } else {
            spec_arms(ts, pos + 1, start)
        }
    } else {
        Ok(Seq::empty())
    }
}

/// The `@match` slot whose keyword has the index `kw`, and where it ends.
pub open spec fn spec_parse_match(ts: Seq<TokenView>, kw: int) -> Result<
    (SlotView, int),
    ParseErrorView,
>
    decreases ts, 0nat, 2nat,
{
    let b = spec_scan(ts, kw + 1, Mark::Brace);
    if 0 <= kw < b < ts.len() {
        match ts[b] {
            TokenView::Group(_, inner) => match spec_arms(inner, 0, 0) {
                Err(e) => Err(nested(e, b)),
                Ok(arms) => Ok((SlotView::Match(ts.subrange(kw + 1, b), arms), b + 1)),
            },
            _ => Err(error_at(ErrorKind::Grammar, b)),
        }
    } else {
        Err(error_at(ErrorKind::Unterminated, kw))
    }
}

/// The `@for` slot whose keyword has the index `kw`, and where it ends: the binder runs up
/// to the first `in`, the iterable from there up to the next brace group, which is the
/// body.
pub open spec fn spec_parse_for(ts: Seq<TokenView>, kw: int) -> Result<
    (SlotView, int),
    ParseErrorView,
>
    decreases ts, 0nat, 2nat,
{
    let i = spec_scan(ts, kw + 1, Mark::In);
    let b = spec_scan(ts, i + 1, Mark::Brace);
    if 0 <= kw < i < b < ts.len() {
        match spec_group_nodes(ts, b) {
            Err(e) => Err(e),
            Ok(body) => Ok(
                (
                    SlotView::For {
                        binder: ts.subrange(kw + 1, i),
                        iterable: ts.subrange(i + 1, b),
                        body,
                    },
                    b + 1,
                ),
            ),
        }
    } else {
        Err(error_at(ErrorKind::Unterminated, kw))
    }
}

/// Does an `@else` stand at `pos`?
pub open spec fn is_else_at(ts: Seq<TokenView>, pos: int) -> bool {
    &&& 0 <= pos
    &&& pos + 1 < ts.len()
    &&& ts[pos].is_punct('@')
    &&& ts[pos + 1].is_word("else"@)
}

/// What continues an `@if` behind a body that ends before `pos`: the further branches, the
/// final body if there is one, and where the slot ends. `kw` is the index of the slot's
/// `if`. An `@else` is followed by a body, which ends the slot, or by `if`, a condition and
/// a body.
pub open spec fn spec_else_chain(ts: Seq<TokenView>, pos: int, kw: int) -> Result<
    (Seq<BranchView>, Option<Seq<MarkupView>>, int),
    ParseErrorView,
>
    decreases ts, ts.len() - pos, 1nat,
{
    if is_else_at(ts, pos) {
        let p = pos + 2;
        if p >= ts.len() {
            Err(error_at(ErrorKind::Unterminated, kw))
        } else if ts[p].is_group(Delimiter::Brace) {
            match spec_group_nodes(ts, p) {
                Err(e) => Err(e),
                Ok(body) => Ok((Seq::empty(), Some(body), p + 1)),
            }
        } else if ts[p].is_word("if"@) {
            let b = spec_scan(ts, p + 1, Mark::Brace);
            if p < b < ts.len() {
                match spec_group_nodes(ts, b) {
                    Err(e) => Err(e),
                    Ok(body) => with_branches(
                        seq![BranchView { condition: ts.subrange(p + 1, b), body }],
                        spec_else_chain(ts, b + 1, kw),
                    ),
                }
            } else {
                Err(error_at(ErrorKind::Unterminated, kw))
            }
        } else {
            Err(error_at(ErrorKind::Grammar, p))
        }
    } else {
        Ok((Seq::empty(), None, pos))
    }
}

/// `found` put in front of what a continued parse of branches returns.
pub open spec fn with_branches(
    found: Seq<BranchView>,
    rest: Result<(Seq<BranchView>, Option<Seq<MarkupView>>, int), ParseErrorView>,
) -> Result<(Seq<BranchView>, Option<Seq<MarkupView>>, int), ParseErrorView> {
    match rest {
        Err(e) => Err(e),
        Ok((more, otherwise, end)) => Ok((found + more, otherwise, end)),
    }
}

/// The `@if` slot whose keyword has the index `kw`, and where it ends.
pub open spec fn spec_parse_if(ts: Seq<TokenView>, kw: int) -> Result<
    (SlotView, int),
    ParseErrorView,
>
    decreases ts, ts.len() - kw, 2nat,
{
    let b = spec_scan(ts, kw + 1, Mark::Brace);
    if 0 <= kw < b < ts.len() {
        match spec_group_nodes(ts, b) {
            Err(e) => Err(e),
            Ok(body) => match with_branches(
                seq![BranchView { condition: ts.subrange(kw + 1, b), body }],
                spec_else_chain(ts, b + 1, kw),
            ) {
                Err(e) => Err(e),
                Ok((branches, otherwise, end)) => Ok((SlotView::If { branches, otherwise }, end)),
            },
        }
    } else {
        Err(error_at(ErrorKind::Unterminated, kw))
    }
}

/// A literal sequence as a node.
pub open spec fn spec_literal_node(ts: Seq<TokenView>, pos: int) -> Result<
    (MarkupView, int),
    ParseErrorView,
> {
    match spec_parse_literal_seq(ts, pos) {
        Err(e) => Err(e),
        Ok((lits, end)) => Ok((MarkupView::LiteralSequence(lits), end)),
    }
}

/// A slot as a node.
pub open spec fn slot_node(slot: Result<(SlotView, int), ParseErrorView>) -> Result<
    (MarkupView, int),
    ParseErrorView,
> {
    match slot {
        Err(e) => Err(e),
        Ok((slot, end)) => Ok((MarkupView::Slot(slot), end)),
    }
}

/// The node that starts at the first token at or behind `pos` that is no semicolon, and
/// where it ends; `None` where only semicolons are left, or nothing.
///
/// A literal, `true`, `false`, or a minus sign before a literal starts a literal sequence;
/// any other word a tag; a brace group is an anonymous block, a round group an expression
/// slot; `@match`, `@if` and `@for` start their slots; `.`, `#` and `@` otherwise start
/// the attribute list of an unnamed tag. Anything else is an error.
pub open spec fn spec_next(ts: Seq<TokenView>, pos: int) -> Option<
    Result<(MarkupView, int), ParseErrorView>,
>
    decreases ts, ts.len() - pos, 3nat,
{
    if 0 <= pos < ts.len() {
        match ts[pos] {
            TokenView::Literal(_) => Some(spec_literal_node(ts, pos)),
            TokenView::Ident(_) => if is_bool_word(ts[pos]) {
                Some(spec_literal_node(ts, pos))
            } else {
                let (tag, next) = spec_parse_ident(ts, pos);
                Some(spec_tag(ts, next, tag))
            },
            TokenView::Group(d, inner) => if d == Delimiter::Brace {
                match spec_group_nodes(ts, pos) {
                    Err(e) => Some(Err(e)),
                    Ok(children) => Some(Ok((MarkupView::AnonBlock(children), pos + 1))),
                }
            } else if d == Delimiter::Parenthesis {
                Some(Ok((MarkupView::Slot(SlotView::Simple(inner)), pos + 1)))
            } else {
                Some(Err(error_at(ErrorKind::Grammar, pos)))
            },
            TokenView::Punct(c, _) => if c == ';' {
                spec_next(ts, pos + 1)
            } else if c == '-' {
                if pos + 1 < ts.len() && ts[pos + 1] is Literal {
                    Some(spec_literal_node(ts, pos))
                } else {
                    Some(Err(error_at(ErrorKind::Grammar, pos)))
                }
            } else if c == '@' && pos + 1 < ts.len() && ts[pos + 1].is_word("match"@) {
                Some(slot_node(spec_parse_match(ts, pos + 1)))
            } else if c == '@' && pos + 1 < ts.len() && ts[pos + 1].is_word("if"@) {
                Some(slot_node(spec_parse_if(ts, pos + 1)))
            } else if c == '@' && pos + 1 < ts.len() && ts[pos + 1].is_word("for"@) {
                Some(slot_node(spec_parse_for(ts, pos + 1)))
            } else if is_shorthand_char(c) {
                Some(spec_tag(ts, pos, unnamed_tag()))
            } else {
                Some(Err(error_at(ErrorKind::Grammar, pos)))
            },
        }
    } else {
        None
    }
}

/// The nodes from `pos` to the end of the tokens.
pub open spec fn spec_parse_nodes(ts: Seq<TokenView>, pos: int) -> Result<
    Seq<MarkupView>,
    ParseErrorView,
>
    decreases ts, ts.len() - pos, 4nat,
{
    match spec_next(ts, pos) {
        None => Ok(Seq::empty()),
        Some(Err(e)) => Err(e),
        Some(Ok((node, next))) => if pos < next <= ts.len() {
            match spec_parse_nodes(ts, next) {
                Err(e) => Err(e),
                Ok(rest) => Ok(seq![node] + rest),
            }
        } else {
            Err(error_at(ErrorKind::Grammar, pos))
        },
    }
}

/// Does a literal sequence start at `pos`?
pub open spec fn starts_literal(ts: Seq<TokenView>, pos: int) -> bool {
    &&& 0 <= pos < ts.len()
    &&& (ts[pos] is Literal || is_bool_word(ts[pos]) || (ts[pos].is_punct('-') && pos + 1
        < ts.len() && ts[pos + 1] is Literal))
}

/// A literal sequence ends at or behind its start, within the tokens.
pub proof fn lemma_literal_seq_bounds(ts: Seq<TokenView>, pos: int)
    requires
        0 <= pos <= ts.len(),
    ensures
        spec_parse_literal_seq(ts, pos) matches Ok((_, end)) ==> pos <= end <= ts.len(),
    decreases ts.len() - pos,
{
    if pos < ts.len() && ts[pos].is_punct(';') {
        lemma_literal_seq_bounds(ts, pos + 1);
    } else {
        match spec_parse_literal(ts, pos) {
            Ok(Some((_, next))) => {
                lemma_literal_seq_bounds(ts, next);
            },
            _ => {},
        }
    }
}

/// A literal sequence that starts with a literal ends behind it.
pub proof fn lemma_literal_seq_advances(ts: Seq<TokenView>, pos: int)
    requires
        starts_literal(ts, pos),
    ensures
        spec_parse_literal_seq(ts, pos) matches Ok((_, end)) ==> pos < end <= ts.len(),
{
    match spec_parse_literal(ts, pos) {
        Ok(Some((_, next))) => {
            lemma_literal_seq_bounds(ts, next);
        },
        _ => {},
    }
}

/// Nothing put in front of a result leaves the result as it is.
pub proof fn lemma_with_literals_empty(rest: Result<(Seq<MarkupLitView>, int), ParseErrorView>)
    ensures
        with_literals(Seq::empty(), rest) == rest,
{
    match rest {
        Ok((more, end)) => {
            assert(Seq::<MarkupLitView>::empty() + more =~= more);
        },
        Err(_) => {},
    }
}

/// A cursor over a sequence of token trees: it looks ahead without moving, and moves only
/// when told to.
#[derive(Clone, Copy)]
pub struct LfmlParser<'a> {
    tokens: &'a Vec<Token>,
    pos: usize,
}

impl<'a> LfmlParser<'a> {
    #[verifier::type_invariant]
    spec fn in_range(self) -> bool {
        self.pos <= self.tokens.len()
    }

    /// The tokens that the cursor runs over.
    pub closed spec fn stream(self) -> Vec<Token> {
        *self.tokens
    }

    /// The values of all the tokens that the cursor runs over.
    pub open spec fn source(self) -> Seq<TokenView> {
        tokens_view(self.stream()@)
    }

    /// How many tokens lie behind the cursor.
    pub closed spec fn position(self) -> int {
        self.pos as int
    }

    /// A cursor at the start of `tokens`.
    pub fn new(tokens: &'a Vec<Token>) -> (out: Self)
        ensures
            out.stream() == *tokens,
            out.position() == 0,
    {
        LfmlParser { tokens, pos: 0 }
    }

    /// The next token, if there is one. The cursor stays.
    pub fn peek(&self) -> (out: Option<&'a Token>)
        ensures
            0 <= self.position() <= self.source().len(),
            match out {
                Some(t) => self.position() < self.source().len()
                    && t@ == self.source()[self.position()],
                None => self.position() == self.source().len(),
            },
    {
        proof {
            use_type_invariant(self);
        }
        if self.pos < self.tokens.len() {
            Some(&self.tokens[self.pos])
        } else {
            None
        }
    }

    /// The token `k` places ahead of the cursor, if the tokens reach that far.
    pub open spec fn ahead(self, k: int) -> Option<TokenView> {
        if 0 <= self.position() + k < self.source().len() {
            Some(self.source()[self.position() + k])
        } else {
            None
        }
    }

    /// The next two tokens, as far as there are any. The cursor stays.
    pub fn peek_2(&self) -> (out: (Option<&'a Token>, Option<&'a Token>))
        ensures
            0 <= self.position() <= self.source().len(),
            token_option_view(out.0) == self.ahead(0),
            token_option_view(out.1) == self.ahead(1),
    {
        proof {
            use_type_invariant(self);
        }
        let x0 = if self.pos < self.tokens.len() {
            Some(&self.tokens[self.pos])
        } else {
            None
        };
        let x1 = if self.pos < self.tokens.len() && self.pos + 1 < self.tokens.len() {
            Some(&self.tokens[self.pos + 1])
        } else {
            None
        };
        (x0, x1)
    }

    /// The next three tokens, as far as there are any. The cursor stays.
    pub fn peek_3(&self) -> (out: (Option<&'a Token>, Option<&'a Token>, Option<&'a Token>))
        ensures
            0 <= self.position() <= self.source().len(),
            token_option_view(out.0) == self.ahead(0),
            token_option_view(out.1) == self.ahead(1),
            token_option_view(out.2) == self.ahead(2),
    {
        proof {
            use_type_invariant(self);
        }
        let n = self.tokens.len();
        let x0 = if self.pos < n {
            Some(&self.tokens[self.pos])
        } else {
            None
        };
        let x1 = if self.pos < n && self.pos + 1 < n {
            Some(&self.tokens[self.pos + 1])
        } else {
            None
        };
        let x2 = if self.pos < n && self.pos + 1 < n && self.pos + 2 < n {
            Some(&self.tokens[self.pos + 2])
        } else {
            None
        };
        (x0, x1, x2)
    }

    /// Moves the cursor over the next token and returns it; at the end the cursor stays.
    pub fn advance(&mut self) -> (out: Option<&'a Token>)
        ensures
            final(self).stream() == old(self).stream(),
            token_option_view(out) == old(self).ahead(0),
            final(self).position() == spec_advanced(old(self).source(), old(self).position(), 1),
    {
        proof {
            use_type_invariant(&*self);
        }
        if self.pos < self.tokens.len() {
            let t = &self.tokens[self.pos];
            self.pos = self.pos + 1;
            Some(t)
        } else {
            None
        }
    }

    /// Moves the cursor over the next two tokens, or to the end where fewer are left.
    pub fn advance_2(&mut self)
        ensures
            final(self).stream() == old(self).stream(),
            final(self).position() == spec_advanced(old(self).source(), old(self).position(), 2),
    {
        self.advance();
        self.advance();
    }

    /// Moves the cursor over the next three tokens, or to the end where fewer are left.
    pub fn advance_3(&mut self)
        ensures
            final(self).stream() == old(self).stream(),
            final(self).position() == spec_advanced(old(self).source(), old(self).position(), 3),
    {
        self.advance();
        self.advance();
        self.advance();
    }

    /// Reads the name that starts with the word under the cursor.
    fn parse_ident(&mut self) -> (out: MarkupId)
        requires
            old(self).ahead(0) is Some,
            old(self).ahead(0)->Some_0 is Ident,
        ensures
            final(self).stream() == old(self).stream(),
            (out@, final(self).position()) == spec_parse_ident(
                old(self).source(),
                old(self).position(),
            ),
            old(self).position() < final(self).position() <= old(self).source().len(),
    {
        let ghost src = self.source();
        let ghost start = self.position();
        let first = match self.advance() {
            Some(Token::Ident(word)) => word.clone(),
            _ => String::new(),
        };
        let mut rest = String::new();
        let mut word_may_follow = false;
        proof {
            lemma_ident_rest_bounds(src, start + 1, false);
        }
        loop
            invariant
                self.source() == src,
                self.stream() == old(self).stream(),
                start < self.position() <= src.len(),
                spec_ident_rest(src, start + 1, false) == (
                    rest@ + spec_ident_rest(src, self.position(), word_may_follow).0,
                    spec_ident_rest(src, self.position(), word_may_follow).1,
                ),
            ensures
                self.source() == src,
                self.stream() == old(self).stream(),
                start < self.position() <= src.len(),
                spec_ident_rest(src, start + 1, false) == (rest@, self.position()),
            decreases src.len() - self.position(),
        {
            let ghost before = rest@;
            match self.peek() {
                Some(Token::Punct(c, _)) if *c == '-' => {
                    self.advance();
                    rest.push('-');
                    word_may_follow = true;
                    assert(before.push('-') + spec_ident_rest(src, self.position(), true).0
                        =~= before + (seq!['-'] + spec_ident_rest(src, self.position(), true).0));
                },
                Some(Token::Ident(word)) if word_may_follow => {
                    self.advance();
                    rest.append(word.as_str());
                    word_may_follow = false;
                    assert((before + word@) + spec_ident_rest(src, self.position(), false).0
                        =~= before + (word@ + spec_ident_rest(src, self.position(), false).0));
                },
                _ => {
                    assert(rest@ + Seq::<char>::empty() =~= rest@);
                    break ;
                },
            }
        }
        if rest.as_str().is_empty() {
            MarkupId::Basic(first)
        } else {
            MarkupId::Complex(first, rest)
        }
    }

    /// Reads the literal under the cursor, if one stands there.
    fn parse_literal(&mut self) -> (out: Result<Option<MarkupLit>, ParseError>)
        ensures
            final(self).stream() == old(self).stream(),
            match spec_parse_literal(old(self).source(), old(self).position()) {
                Err(e) => out matches Err(x) && x@ == e,
                Ok(None) => out matches Ok(None) && final(self).position() == old(self).position(),
                Ok(Some((lit, next))) => out matches Ok(Some(l)) && l@ == lit
                    && final(self).position() == next
                    && old(self).position() < next <= old(self).source().len(),
            },
    {
        let at = self.pos;
        match self.peek_2() {
            (Some(Token::Literal(repr)), _) => {
                match MarkupLit::from_literal(repr.as_str()) {
                    Some(lit) => {
                        self.advance();
                        Ok(Some(lit))
                    },
                    None => Err(ParseError::new(ErrorKind::UnsupportedLiteral, at)),
                }
            },
            (Some(Token::Punct(c, _)), Some(Token::Literal(repr))) if *c == '-' => {
                match MarkupLit::negative(repr.as_str()) {
                    Some(lit) => {
                        self.advance_2();
                        Ok(Some(lit))
                    },
                    None => Err(ParseError::new(ErrorKind::Grammar, at)),
                }
            },
            (Some(Token::Ident(word)), _) => {
                if *word.as_str() == *"true" || *word.as_str() == *"false" {
                    self.advance();
                    Ok(Some(MarkupLit::Basic(word.clone())))
                } else {
                    Ok(None)
                }
            },
            _ => Ok(None),
        }
    }

    /// Reads the literals from the cursor on, passing over the semicolons between and
    /// behind them.
    fn parse_literal_seq(&mut self) -> (out: Result<Vec<MarkupLit>, ParseError>)
        ensures
            final(self).stream() == old(self).stream(),
            match spec_parse_literal_seq(old(self).source(), old(self).position()) {
                Err(e) => out matches Err(x) && x@ == e,
                Ok((lits, end)) => out matches Ok(v) && lits_view(v@) == lits
                    && final(self).position() == end
                    && old(self).position() <= end <= old(self).source().len(),
            },
    {
        let ghost src = self.source();
        let ghost start = self.position();
        let mut inner: Vec<MarkupLit> = Vec::new();
        assert(lits_view(inner@) =~= Seq::empty());
        proof {
            use_type_invariant(&*self);
            lemma_with_literals_empty(spec_parse_literal_seq(src, start));
        }
        loop
            invariant
                self.source() == src,
                self.stream() == old(self).stream(),
                src == old(self).source(),
                start == old(self).position(),
                start <= self.position() <= src.len(),
                spec_parse_literal_seq(src, start) == with_literals(
                    lits_view(inner@),
                    spec_parse_literal_seq(src, self.position()),
                ),
            decreases src.len() - self.position(),
        {
            let ghost here = self.position();
            let ghost found = lits_view(inner@);
            let semicolon = match self.peek() {
                Some(t) => t.is_punct(';'),
                None => false,
            };
            if semicolon {
                self.advance();
            } else {
                match self.parse_literal() {
                    Err(e) => {
                        return Err(e);
                    },
                    Ok(None) => {
                        assert(found + Seq::<MarkupLitView>::empty() =~= found);
                        return Ok(inner);
                    },
                    Ok(Some(lit)) => {
                        inner.push(lit);
                        proof {
                            let rest = spec_parse_literal_seq(src, self.position());
                            assert(lits_view(inner@) =~= found.push(lit@));
                            match rest {
                                Ok((more, end)) => {
                                    assert(found.push(lit@) + more =~= found + (seq![lit@] + more));
                                },
                                Err(_) => {},
                            }
                        }
                    },
                }
            }
        }
    }

    /// Reads what follows an attribute's name.
    fn parse_named_attr(&mut self, name: MarkupId) -> (out: Result<
        (Option<TagAttribute>, Ending),
        ParseError,
    >)
        ensures
            final(self).stream() == old(self).stream(),
            match spec_named_attr(old(self).source(), old(self).position(), name@) {
                Err(e) => out matches Err(x) && x@ == e,
                Ok((attr, ending, next)) => out matches Ok((a, end)) && attr_option_view(a) == attr
                    && end == ending && final(self).position() == next && old(self).position()
                    <= next <= old(self).source().len() && (ending matches Ending::Body(b) ==> b
                    < old(self).source().len() && old(self).source()[b as int].is_group(
                    Delimiter::Brace,
                )),
            },
    {
        let at = self.pos;
        proof {
            use_type_invariant(&*self);
        }
        match self.peek_2() {
            (Some(Token::Punct(c, _)), second) => {
                if *c == '=' {
                    match second {
                        Some(Token::Group(Delimiter::Parenthesis, inner)) => {
                            self.advance_2();
                            Ok(
                                (
                                    Some(
                                        TagAttribute::Interpolated {
                                            kind: InterpValue::NameValue {
                                                name,
                                                wrapper: InterpValueType::Direct,
                                            },
                                            value: External(duplicate_tokens(inner)),
                                        },
                                    ),
                                    Ending::Open,
                                ),
                            )
                        },
                        Some(Token::Group(Delimiter::Bracket, inner)) => {
                            self.advance_2();
                            Ok(
                                (
                                    Some(
                                        TagAttribute::Interpolated {
                                            kind: InterpValue::NameValue {
                                                name,
                                                wrapper: InterpValueType::Optional,
                                            },
                                            value: External(duplicate_tokens(inner)),
                                        },
                                    ),
                                    Ending::Open,
                                ),
                            )
                        },
                        None => Err(ParseError::new(ErrorKind::Grammar, at)),
                        Some(Token::Group(_, _)) => Err(ParseError::new(ErrorKind::Grammar, at + 1)),
                        Some(_) => {
                            self.advance();
                            match self.parse_literal() {
                                Err(e) => Err(e),
                                Ok(None) => Err(ParseError::new(ErrorKind::Grammar, at)),
                                Ok(Some(lit)) => Ok(
                                    (
                                        Some(TagAttribute::Lit { name, value: Some(lit) }),
                                        Ending::Open,
                                    ),
                                ),
                            }
                        },
                    }
                } else if *c == ';' {
                    self.advance();
                    Ok((Some(TagAttribute::Lit { name, value: None }), Ending::Closed))
                } else if *c == '.' || *c == '#' || *c == '@' {
                    Ok((Some(TagAttribute::Lit { name, value: None }), Ending::Open))
                } else {
                    Err(ParseError::new(ErrorKind::Grammar, at))
                }
            },
            (Some(Token::Group(d, inner)), _) => {
                match d {
                    Delimiter::Bracket => {
                        self.advance();
                        Ok(
                            (
                                Some(
                                    TagAttribute::Interpolated {
                                        kind: InterpValue::Toggle { name },
                                        value: External(duplicate_tokens(inner)),
                                    },
                                ),
                                Ending::Open,
                            ),
                        )
                    },
                    Delimiter::Brace => {
                        self.advance();
                        Ok((Some(TagAttribute::Lit { name, value: None }), Ending::Body(at)))
                    },
                    _ => Err(ParseError::new(ErrorKind::Grammar, at)),
                }
            },
            (Some(Token::Ident(_)), _) => Ok(
                (Some(TagAttribute::Lit { name, value: None }), Ending::Open),
            ),
            _ => Err(ParseError::new(ErrorKind::Grammar, at)),
        }
    }

    /// Reads one step of an attribute list: an attribute, the end of the tag, or both.
    fn parse_attr(&mut self, tag: &MarkupId) -> (out: Result<
        (Option<TagAttribute>, Ending),
        ParseError,
    >)
        ensures
            final(self).stream() == old(self).stream(),
            match spec_parse_attr(old(self).source(), old(self).position(), tag@) {
                Err(e) => out matches Err(x) && x@ == e,
                Ok((attr, ending, next)) => out matches Ok((a, end)) && attr_option_view(a) == attr
                    && end == ending && final(self).position() == next && old(self).position()
                    < next <= old(self).source().len() && (ending matches Ending::Body(b) ==> b
                    < old(self).source().len() && old(self).source()[b as int].is_group(
                    Delimiter::Brace,
                )),
            },
    {
        let at = self.pos;
        proof {
            use_type_invariant(&*self);
        }
        match self.peek_2() {
            (Some(Token::Punct(c, _)), second) => {
                let c = *c;
                if c == ';' {
                    self.advance();
                    return Ok((None, Ending::Closed));
                }
                let class_or_id = c == '.' || c == '#';
                if !class_or_id && c != '@' {
                    return Err(ParseError::new(ErrorKind::Grammar, at));
                }
                match second {
                    Some(Token::Group(d, inner)) => {
                        match shorthand(c, *d, inner, tag) {
                            Some(attr) => {
                                self.advance_2();
                                Ok((Some(attr), Ending::Open))
                            },
                            None => Err(ParseError::new(ErrorKind::Grammar, at)),
                        }
                    },
                    Some(Token::Ident(_)) => {
                        if !class_or_id {
                            return Err(ParseError::new(ErrorKind::Grammar, at));
                        }
                        self.advance();
                        let id = self.parse_ident();
                        let text = id.text();
                        let value = MarkupLit::Basic(escape_string(text.as_str()));
                        Ok(
                            (
                                Some(
                                    TagAttribute::Lit {
                                        name: shorthand_id(c),
                                        value: Some(value),
                                    },
                                ),
                                Ending::Open,
                            ),
                        )
                    },
                    _ => {
                        if !class_or_id {
                            return Err(ParseError::new(ErrorKind::Grammar, at));
                        }
                        self.advance();
                        match self.parse_literal() {
                            Err(e) => Err(e),
                            Ok(None) => Err(ParseError::new(ErrorKind::Grammar, at)),
                            Ok(Some(lit)) => Ok(
                                (
                                    Some(
                                        TagAttribute::Lit {
                                            name: shorthand_id(c),
                                            value: Some(lit),
                                        },
                                    ),
                                    Ending::Open,
                                ),
                            ),
                        }
                    },
                }
            },
            (Some(Token::Group(d, _)), _) => {
                match d {
                    Delimiter::Brace => {
                        self.advance();
                        Ok((None, Ending::Body(at)))
                    },
                    _ => Err(ParseError::new(ErrorKind::Grammar, at)),
                }
            },
            (Some(Token::Ident(_)), _) => {
                let name = self.parse_ident();
                self.parse_named_attr(name)
            },
            _ => Err(ParseError::new(ErrorKind::Grammar, at)),
        }
    }

    /// Reads the attribute list of the tag `tag`, up to and with the `;` or the brace group
    /// that ends it. Returns the attributes and the index of the body group, if any.
    fn parse_attrs(&mut self, tag: &MarkupId) -> (out: Result<
        (Vec<TagAttribute>, Option<usize>),
        ParseError,
    >)
        ensures
            final(self).stream() == old(self).stream(),
            match spec_parse_attrs(old(self).source(), old(self).position(), tag@) {
                Err(e) => out matches Err(x) && x@ == e,
                Ok((attrs, body, end)) => out matches Ok((v, b)) && attrs_view(v@) == attrs && b
                    == body && final(self).position() == end && old(self).position() < end
                    <= old(self).source().len()
                        && (body matches Some(i) ==> i < old(self).source().len()
                        && old(self).source()[i as int].is_group(Delimiter::Brace)),
            },
    {
        let ghost src = self.source();
        let ghost start = self.position();
        let mut output: Vec<TagAttribute> = Vec::new();
        assert(attrs_view(output@) =~= Seq::empty());
        proof {
            use_type_invariant(&*self);
            lemma_with_attrs_empty(spec_parse_attrs(src, start, tag@));
        }
        loop
            invariant
                self.source() == src,
                self.stream() == old(self).stream(),
                src == old(self).source(),
                start == old(self).position(),
                start <= self.position() <= src.len(),
                spec_parse_attrs(src, start, tag@) == with_attrs(
                    attrs_view(output@),
                    spec_parse_attrs(src, self.position(), tag@),
                ),
            decreases src.len() - self.position(),
        {
            let ghost found = attrs_view(output@);
            let ghost here = self.position();
            match self.parse_attr(tag) {
                Err(e) => {
                    return Err(e);
                },
                Ok((attr, ending)) => {
                    let ghost step = step_attrs(attr_option_view(attr));
                    match attr {
                        Some(a) => {
                            output.push(a);
                        },
                        None => {},
                    }
                    assert(attrs_view(output@) =~= found + step);
                    match ending {
                        Ending::Closed => {
                            return Ok((output, None));
                        },
                        Ending::Body(body) => {
                            return Ok((output, Some(body)));
                        },
                        Ending::Open => {
                            proof {
                                match spec_parse_attrs(src, self.position(), tag@) {
                                    Ok((more, _, _)) => {
                                        assert((found + step) + more =~= found + (step + more));
                                    },
                                    Err(_) => {},
                                }
                            }
                        },
                    }
                },
            }
        }
    }

    /// Copies the tokens from the cursor up to the first one at which the scan for `mark`
    /// stops, and moves the cursor behind that one. Returns the copies and the index of the
    /// stop, or `None` where the tokens end first.
    fn take_until(&mut self, mark: Mark) -> (out: (Vec<Token>, Option<usize>))
        ensures
            final(self).stream() == old(self).stream(),
            0 <= old(self).position() <= spec_scan(old(self).source(), old(self).position(), mark)
                <= old(self).source().len(),
            tokens_view(out.0@) == old(self).source().subrange(
                old(self).position(),
                spec_scan(old(self).source(), old(self).position(), mark),
            ),
            match out.1 {
                Some(i) => i == spec_scan(old(self).source(), old(self).position(), mark)
                    && i < old(self).source().len() && final(self).position() == i + 1,
                None => spec_scan(old(self).source(), old(self).position(), mark) == old(self).source().len(),
            },
    {
        let ghost src = self.source();
        let ghost start = self.position();
        let mut taken: Vec<Token> = Vec::new();
        proof {
            use_type_invariant(&*self);
            lemma_scan_bounds(src, start, mark);
            assert(tokens_view(taken@) =~= src.subrange(start, start));
        }
        loop
            invariant
                self.source() == src,
                self.stream() == old(self).stream(),
                src == old(self).source(),
                start == old(self).position(),
                0 <= start <= self.position() <= src.len(),
                start <= spec_scan(src, start, mark) <= src.len(),
                spec_scan(src, start, mark) == spec_scan(src, self.position(), mark),
                tokens_view(taken@) == src.subrange(start, self.position()),
            decreases src.len() - self.position(),
        {
            let at = self.pos;
            match self.peek() {
                None => {
                    return (taken, None);
                },
                Some(t) => {
                    let stop = match mark {
                        Mark::Brace => t.is_group(Delimiter::Brace),
                        Mark::In => t.is_ident("in"),
                    };
                    self.advance();
                    if stop {
                        return (taken, Some(at));
                    }
                    let ghost before = taken@;
                    taken.push(t.duplicate());
                    proof {
                        lemma_tokens_view_push(before, taken@.last());
                        assert(taken@ =~= before.push(taken@.last()));
                        assert(src.subrange(start, at as int).push(src[at as int]) =~= src.subrange(
                            start,
                            at + 1,
                        ));
                    }
                },
            }
        }
    }

    /// Parses the nodes inside the group with index `i`.
    fn group_nodes(tokens: &Vec<Token>, i: usize) -> (out: Result<Vec<Markup>, ParseError>)
        requires
            i < tokens.len(),
        ensures
            match spec_group_nodes(tokens_view(tokens@), i as int) {
                Err(e) => out matches Err(x) && x@ == e,
                Ok(nodes) => out matches Ok(v) && markups_view(v@) == nodes,
            },
        decreases tokens, 0nat,
    {
        match &tokens[i] {
            Token::Group(_, inner) => match parse_nodes(inner) {
                Ok(nodes) => Ok(nodes),
                Err(e) => Err(e.inside(i)),
            },
            _ => Err(ParseError::new(ErrorKind::Grammar, i)),
        }
    }

    /// Reads the attribute list and the body of the tag `tag`.
    fn parse_tag(&mut self, tag: MarkupId) -> (out: Result<Markup, ParseError>)
        ensures
            final(self).stream() == old(self).stream(),
            match spec_tag(old(self).source(), old(self).position(), tag@) {
                Err(e) => out matches Err(x) && x@ == e,
                Ok((node, end)) => out matches Ok(m) && m@ == node && final(self).position() == end
                    && old(self).position() < end <= old(self).source().len(),
            },
        decreases old(self).tokens, 1nat,
    {
        match self.parse_attrs(&tag) {
            Err(e) => Err(e),
            Ok((attrs, body)) => match body {
                None => Ok(Markup::Tag { tag, attrs, inner: None }),
                Some(b) => match Self::group_nodes(self.tokens, b) {
                    Err(e) => Err(e),
                    Ok(children) => Ok(Markup::Tag { tag, attrs, inner: Some(children) }),
                },
            },
        }
    }

    /// Reads a literal sequence as a node.
    fn literal_node(&mut self) -> (out: Result<Markup, ParseError>)
        ensures
            final(self).stream() == old(self).stream(),
            match spec_literal_node(old(self).source(), old(self).position()) {
                Err(e) => out matches Err(x) && x@ == e,
                Ok((node, end)) => out matches Ok(m) && m@ == node && final(self).position() == end
                    && old(self).position() <= end <= old(self).source().len() && (starts_literal(
                    old(self).source(),
                    old(self).position(),
                ) ==> old(self).position() < end),
            },
    {
        proof {
            if starts_literal(self.source(), self.position()) {
                lemma_literal_seq_advances(self.source(), self.position());
            }
        }
        match self.parse_literal_seq() {
            Err(e) => Err(e),
            Ok(lits) => Ok(Markup::LiteralSequence(lits)),
        }
    }

    /// Reads a `@match` slot; the cursor stands on the word `match`.
    fn parse_match(&mut self) -> (out: Result<InterpMarkupExpr, ParseError>)
        requires
            old(self).position() < old(self).source().len(),
        ensures
            final(self).stream() == old(self).stream(),
            match spec_parse_match(old(self).source(), old(self).position()) {
                Err(e) => out matches Err(x) && x@ == e,
                Ok((slot, end)) => out matches Ok(m) && m@ == slot && final(self).position() == end
                    && old(self).position() < end <= old(self).source().len(),
            },
        decreases old(self).tokens, 3nat,
    {
        let kw = self.pos;
        self.advance();
        let (subject, brace) = self.take_until(Mark::Brace);
        match brace {
            None => Err(ParseError::new(ErrorKind::Unterminated, kw)),
            Some(b) => match &self.tokens[b] {
                Token::Group(_, inner) => match parse_arms(inner) {
                    Err(e) => Err(e.inside(b)),
                    Ok(arms) => Ok(InterpMarkupExpr::Match(External(subject), arms)),
                },
                _ => Err(ParseError::new(ErrorKind::Grammar, b)),
            },
        }
    }

    /// Reads a `@for` slot; the cursor stands on the word `for`.
    fn parse_for(&mut self) -> (out: Result<InterpMarkupExpr, ParseError>)
        requires
            old(self).position() < old(self).source().len(),
        ensures
            final(self).stream() == old(self).stream(),
            match spec_parse_for(old(self).source(), old(self).position()) {
                Err(e) => out matches Err(x) && x@ == e,
                Ok((slot, end)) => out matches Ok(m) && m@ == slot && final(self).position() == end
                    && old(self).position() < end <= old(self).source().len(),
            },
        decreases old(self).tokens, 3nat,
    {
        let kw = self.pos;
        self.advance();
        let (binder, word) = self.take_until(Mark::In);
        if word.is_none() {
            return Err(ParseError::new(ErrorKind::Unterminated, kw));
        }
        let (iterable, brace) = self.take_until(Mark::Brace);
        match brace {
            None => Err(ParseError::new(ErrorKind::Unterminated, kw)),
            Some(b) => match Self::group_nodes(self.tokens, b) {
                Err(e) => Err(e),
                Ok(body) => Ok(
                    InterpMarkupExpr::For {
                        binder: External(binder),
                        iterable: External(iterable),
                        body,
                    },
                ),
            },
        }
    }

    /// Reads an `@if` slot; the cursor stands on the word `if`.
    fn parse_if(&mut self) -> (out: Result<InterpMarkupExpr, ParseError>)
        requires
            old(self).position() < old(self).source().len(),
        ensures
            final(self).stream() == old(self).stream(),
            match spec_parse_if(old(self).source(), old(self).position()) {
                Err(e) => out matches Err(x) && x@ == e,
                Ok((slot, end)) => out matches Ok(m) && m@ == slot && final(self).position() == end
                    && old(self).position() < end <= old(self).source().len(),
            },
        decreases old(self).tokens, 3nat,
    {
        let ghost src = self.source();
        let kw = self.pos;
        self.advance();
        let (condition, brace) = self.take_until(Mark::Brace);
        let first = match brace {
            None => {
                return Err(ParseError::new(ErrorKind::Unterminated, kw));
            },
            Some(b) => match Self::group_nodes(self.tokens, b) {
                Err(e) => {
                    return Err(e);
                },
                Ok(body) => Branch { condition: External(condition), body },
            },
        };
        let ghost chain_start = self.position();
        let ghost first_view = seq![first@];
        let mut branches: Vec<Branch> = Vec::new();
        branches.push(first);
        assert(branches_view(branches@) =~= first_view);
        loop
            invariant
                self.source() == src,
                self.stream() == old(self).stream(),
                src == old(self).source(),
                kw == old(self).position(),
                kw < chain_start <= self.position() <= src.len(),
                with_branches(first_view, spec_else_chain(src, chain_start, kw as int))
                    == with_branches(
                    branches_view(branches@),
                    spec_else_chain(src, self.position(), kw as int),
                ),
                spec_parse_if(src, kw as int) == match with_branches(
                    first_view,
                    spec_else_chain(src, chain_start, kw as int),
                ) {
                    Err(e) => Err(e),
                    Ok((branches, otherwise, end)) => Ok(
                        (SlotView::If { branches, otherwise }, end),
                    ),
                },
            decreases src.len() - self.position(),
        {
            let ghost found = branches_view(branches@);
            let is_else = match self.peek_2() {
                (Some(a), Some(b)) => a.is_punct('@') && b.is_ident("else"),
                _ => false,
            };
            if !is_else {
                assert(found + Seq::<BranchView>::empty() =~= found);
                return Ok(InterpMarkupExpr::If { branches, otherwise: None });
            }
            self.advance_2();
            let at = self.pos;
            match self.peek() {
                None => {
                    return Err(ParseError::new(ErrorKind::Unterminated, kw));
                },
                Some(t) => {
                    if t.is_group(Delimiter::Brace) {
                        match Self::group_nodes(self.tokens, at) {
                            Err(e) => {
                                return Err(e);
                            },
                            Ok(body) => {
                                self.advance();
                                assert(found + Seq::<BranchView>::empty() =~= found);
                                return Ok(InterpMarkupExpr::If { branches, otherwise: Some(body) });
                            },
                        }
                    } else if t.is_ident("if") {
                        self.advance();
                        let (condition, brace) = self.take_until(Mark::Brace);
                        match brace {
                            None => {
                                return Err(ParseError::new(ErrorKind::Unterminated, kw));
                            },
                            Some(b) => match Self::group_nodes(self.tokens, b) {
                                Err(e) => {
                                    return Err(e);
                                },
                                Ok(body) => {
                                    let branch = Branch { condition: External(condition), body };
                                    let ghost one = seq![branch@];
                                    branches.push(branch);
                                    proof {
                                        assert(branches_view(branches@) =~= found + one);
                                        match spec_else_chain(src, self.position(), kw as int) {
                                            Ok((more, _, _)) => {
                                                assert((found + one) + more =~= found + (one
                                                    + more));
                                            },
                                            Err(_) => {},
                                        }
                                    }
                                },
                            },
                        }
                    } else {
                        return Err(ParseError::new(ErrorKind::Grammar, at));
                    }
                },
            }
        }
    }

    /// Reads the next node and moves the cursor behind it. Semicolons in front of the
    /// node are passed over. `None` where no node is left. Where no node is returned the
    /// cursor stays.
    pub fn next(&mut self) -> (out: Option<Result<Markup, ParseError>>)
        ensures
            final(self).stream() == old(self).stream(),
            match spec_next(old(self).source(), old(self).position()) {
                None => out is None && final(self).position() == old(self).position(),
                Some(Err(e)) => out matches Some(Err(x)) && x@ == e && final(self).position()
                    == old(self).position(),
                Some(Ok((node, end))) => out matches Some(Ok(m)) && m@ == node
                    && final(self).position() == end
                    && old(self).position() < end <= old(self).source().len(),
            },
    {
        self.next_node()
    }

    /// Reads the next node, as `next` does.
    fn next_node(&mut self) -> (out: Option<Result<Markup, ParseError>>)
        ensures
            final(self).stream() == old(self).stream(),
            match spec_next(old(self).source(), old(self).position()) {
                None => out is None && final(self).position() == old(self).position(),
                Some(Err(e)) => out matches Some(Err(x)) && x@ == e && final(self).position()
                    == old(self).position(),
                Some(Ok((node, end))) => out matches Some(Ok(m)) && m@ == node
                    && final(self).position() == end
                    && old(self).position() < end <= old(self).source().len(),
            },
        decreases old(self).tokens, 4nat,
    {
        let ghost src = self.source();
        let start = self.pos;
        proof {
            use_type_invariant(&*self);
        }
        loop
            invariant
                self.source() == src,
                self.stream() == old(self).stream(),
                start <= self.position() <= src.len(),
                spec_next(src, start as int) == spec_next(src, self.position()),
            ensures
                self.source() == src,
                self.stream() == old(self).stream(),
                start <= self.position() <= src.len(),
                spec_next(src, start as int) == spec_next(src, self.position()),
                self.ahead(0) matches Some(t) ==> !t.is_punct(';'),
            decreases src.len() - self.position(),
        {
            let semicolon = match self.peek() {
                Some(t) => t.is_punct(';'),
                None => false,
            };
            if !semicolon {
                break ;
            }
            self.advance();
        }
        let at = self.pos;
        let result = match self.peek_2() {
            (None, _) => {
                self.pos = start;
                return None;
            },
            (Some(first), second) => match first {
                Token::Literal(_) => self.literal_node(),
                Token::Ident(_) => {
                    if first.is_ident("true") || first.is_ident("false") {
                        self.literal_node()
                    } else {
                        let tag = self.parse_ident();
                        self.parse_tag(tag)
                    }
                },
                Token::Group(d, inner) => match d {
                    Delimiter::Brace => match Self::group_nodes(self.tokens, at) {
                        Err(e) => Err(e),
                        Ok(children) => {
                            self.advance();
                            Ok(Markup::AnonBlock(children))
                        },
                    },
                    Delimiter::Parenthesis => {
                        self.advance();
                        Ok(
                            Markup::Slot(
                                InterpMarkupExpr::Simple(External(duplicate_tokens(inner))),
                            ),
                        )
                    },
                    _ => Err(ParseError::new(ErrorKind::Grammar, at)),
                },
                Token::Punct(c, _) => {
                    let c = *c;
                    if c == '-' {
                        let number = match second {
                            Some(Token::Literal(_)) => true,
                            _ => false,
                        };
                        if number {
                            self.literal_node()
                        } else {
                            Err(ParseError::new(ErrorKind::Grammar, at))
                        }
                    } else if c == '@' || c == '.' || c == '#' {
                        let keyword: u8 = match second {
                            Some(word) => if c != '@' {
                                0
                            } else if word.is_ident("match") {
                                1
                            } else if word.is_ident("if") {
                                2
                            } else if word.is_ident("for") {
                                3
                            } else {
                                0
                            },
                            None => 0,
                        };
                        if keyword == 0 {
                            self.parse_tag(unnamed_tag_ident())
                        } else {
                            self.advance();
                            let slot = if keyword == 1 {
                                self.parse_match()
                            } else if keyword == 2 {
                                self.parse_if()
                            } else {
                                self.parse_for()
                            };
                            match slot {
                                Err(e) => Err(e),
                                Ok(slot) => Ok(Markup::Slot(slot)),
                            }
                        }
                    } else {
                        Err(ParseError::new(ErrorKind::Grammar, at))
                    }
                },
            },
        };
        match result {
            Ok(node) => Some(Ok(node)),
            Err(e) => {
                self.pos = start;
                Some(Err(e))
            },
        }
    }
}

/// The value of the token that a lookahead returned.
pub open spec fn token_option_view(t: Option<&Token>) -> Option<TokenView> {
    match t {
        Some(t) => Some(t@),
        None => None,
    }
}

/// Where a cursor at `pos` stands after it was moved `n` times.
pub open spec fn spec_advanced(ts: Seq<TokenView>, pos: int, n: nat) -> int {
    if pos + n <= ts.len() {
        pos + n
    } else {
        ts.len() as int
    }
}

/// The value of an attribute that a step may have read.
pub open spec fn attr_option_view(a: Option<TagAttribute>) -> Option<TagAttributeView> {
    match a {
        Some(a) => Some(a@),
        None => None,
    }
}

/// Nothing put in front of a result leaves the result as it is.
pub proof fn lemma_with_attrs_empty(
    rest: Result<(Seq<TagAttributeView>, Option<usize>, int), ParseErrorView>,
)
    ensures
        with_attrs(Seq::empty(), rest) == rest,
{
    match rest {
        Ok((more, body, end)) => {
            assert(Seq::<TagAttributeView>::empty() + more =~= more);
        },
        Err(_) => {},
    }
}

/// The name `class` for `.`, the name `id` for any other character.
fn shorthand_id(c: char) -> (out: MarkupId)
    ensures
        out@ == shorthand_name(c),
{
    if c == '.' {
        MarkupId::Basic(String::from_str("class"))
    } else {
        MarkupId::Basic(String::from_str("id"))
    }
}

/// Builds the interpolated attribute written as a shorthand character and a group.
fn shorthand(c: char, d: Delimiter, inner: &Vec<Token>, tag: &MarkupId) -> (out: Option<
    TagAttribute,
>)
    ensures
        attr_option_view(out) == spec_shorthand(c, d, tokens_view(inner@), tag@),
{
    let wrapper = match d {
        Delimiter::Parenthesis => InterpValueType::Direct,
        Delimiter::Bracket => InterpValueType::Optional,
        _ => {
            return None;
        },
    };
    if c == '.' || c == '#' {
        Some(
            TagAttribute::Interpolated {
                kind: InterpValue::NameValue { name: shorthand_id(c), wrapper },
                value: External(duplicate_tokens(inner)),
            },
        )
    } else if c == '@' {
        Some(
            TagAttribute::Interpolated {
                kind: InterpValue::Spread { tag: tag.duplicate(), wrapper },
                value: External(duplicate_tokens(inner)),
            },
        )
    } else {
        None
    }
}

/// `found` put in front of what a continued parse of arms returns.
pub open spec fn with_arms(found: Seq<ArmView>, rest: Result<Seq<ArmView>, ParseErrorView>) -> Result<
    Seq<ArmView>,
    ParseErrorView,
> {
    match rest {
        Err(e) => Err(e),
        Ok(more) => Ok(found + more),
    }
}

/// `found` put in front of what a continued parse of nodes returns.
pub open spec fn with_nodes(
    found: Seq<MarkupView>,
    rest: Result<Seq<MarkupView>, ParseErrorView>,
) -> Result<Seq<MarkupView>, ParseErrorView> {
    match rest {
        Err(e) => Err(e),
        Ok(more) => Ok(found + more),
    }
}

/// The name of the tag that a shorthand attribute at the start of a statement belongs to.
pub fn unnamed_tag_ident() -> (out: MarkupId)
    ensures
        out@ == unnamed_tag(),
{
    MarkupId::Basic(String::from_str(crate::html::UNNAMED_TAG))
}

/// Parses the arms of a `@match` from the tokens of its block.
fn parse_arms(tokens: &Vec<Token>) -> (out: Result<Vec<Arm>, ParseError>)
    ensures
        match spec_arms(tokens_view(tokens@), 0, 0) {
            Err(e) => out matches Err(x) && x@ == e,
            Ok(arms) => out matches Ok(v) && arms_view(v@) == arms,
        },
    decreases tokens, 1nat,
{
    let ghost src = tokens_view(tokens@);
    let count = tokens.len();
    let mut cursor = LfmlParser::new(tokens);
    let mut arms: Vec<Arm> = Vec::new();
    let mut pattern: Vec<Token> = Vec::new();
    let ghost mut start: int = 0;
    proof {
        assert(arms_view(arms@) =~= Seq::empty());
        assert(tokens_view(pattern@) =~= src.subrange(0, 0));
        match spec_arms(src, 0, 0) {
            Ok(more) => {
                assert(Seq::<ArmView>::empty() + more =~= more);
            },
            Err(_) => {},
        }
    }
    loop
        invariant
            cursor.source() == src,
            src == tokens_view(tokens@),
            cursor.stream() == *tokens,
            count == tokens.len(),
            0 <= start <= cursor.position() <= src.len(),
            tokens_view(pattern@) == src.subrange(start, cursor.position()),
            spec_arms(src, 0, 0) == with_arms(
                arms_view(arms@),
                spec_arms(src, cursor.position(), start),
            ),
        decreases src.len() - cursor.position(),
    {
        let ghost found = arms_view(arms@);
        let at = cursor.pos;
        match cursor.peek_3() {
            (None, _, _) => {
                assert(found + Seq::<ArmView>::empty() =~= found);
                return Ok(arms);
            },
            (Some(first), second, third) => {
                let arrow = first.is_punct('=') && match (second, third) {
                    (Some(b), Some(c)) => b.is_punct('>') && c.is_group(Delimiter::Brace),
                    _ => false,
                };
                if arrow {
                    match LfmlParser::group_nodes(tokens, at + 2) {
                        Err(e) => {
                            return Err(e);
                        },
                        Ok(body) => {
                            cursor.advance_3();
                            let arm = Arm { pattern: External(pattern), body };
                            let ghost one = seq![arm@];
                            arms.push(arm);
                            pattern = Vec::new();
                            proof {
                                start = at + 3;
                                assert(tokens_view(pattern@) =~= src.subrange(start, start));
                                assert(arms_view(arms@) =~= found + one);
                                match spec_arms(src, at + 3, at + 3) {
                                    Ok(more) => {
                                        assert((found + one) + more =~= found + (one + more));
                                    },
                                    Err(_) => {},
                                }
                            }
                        },
                    }
                } else if pattern.len() == 0 && first.is_punct(',') {
                    cursor.advance();
                    proof {
                        start = at + 1;
                        assert(tokens_view(pattern@) =~= src.subrange(start, start));
                    }
                } else {
                    cursor.advance();
                    let ghost before = pattern@;
                    pattern.push(first.duplicate());
                    proof {
                        lemma_tokens_view_push(before, pattern@.last());
                        assert(pattern@ =~= before.push(pattern@.last()));
                        assert(src.subrange(start, at as int).push(src[at as int]) =~= src.subrange(
                            start,
                            at + 1,
                        ));
                    }
                }
            },
        }
    }
}

/// Parses a whole sequence of token trees into nodes.
pub fn parse_nodes(tokens: &Vec<Token>) -> (out: Result<Vec<Markup>, ParseError>)
    ensures
        match spec_parse_nodes(tokens_view(tokens@), 0) {
            Err(e) => out matches Err(x) && x@ == e,
            Ok(nodes) => out matches Ok(v) && markups_view(v@) == nodes,
        },
    decreases tokens, 5nat,
{
    let ghost src = tokens_view(tokens@);
    let mut parser = LfmlParser::new(tokens);
    let mut nodes: Vec<Markup> = Vec::new();
    proof {
        assert(markups_view(nodes@) =~= Seq::empty());
        match spec_parse_nodes(src, 0) {
            Ok(more) => {
                assert(Seq::<MarkupView>::empty() + more =~= more);
            },
            Err(_) => {},
        }
    }
    loop
        invariant
            parser.source() == src,
            src == tokens_view(tokens@),
            parser.stream() == *tokens,
            0 <= parser.position() <= src.len(),
            spec_parse_nodes(src, 0) == with_nodes(
                markups_view(nodes@),
                spec_parse_nodes(src, parser.position()),
            ),
        decreases src.len() - parser.position(),
    {
        let ghost found = markups_view(nodes@);
        match parser.next_node() {
            None => {
                assert(found + Seq::<MarkupView>::empty() =~= found);
                return Ok(nodes);
            },
            Some(Err(e)) => {
                return Err(e);
            },
            Some(Ok(node)) => {
                let ghost one = seq![node@];
                nodes.push(node);
                proof {
                    assert(markups_view(nodes@) =~= found + one);
                    match spec_parse_nodes(src, parser.position()) {
                        Ok(more) => {
                            assert((found + one) + more =~= found + (one + more));
                        },
                        Err(_) => {},
                    }
                }
            },
        }
    }
}

} // verus!
