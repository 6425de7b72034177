//! Rendering: running output operations against the values of the host program.
//!
//! The compiler never reads a host fragment. To render, the host says what each fragment
//! of the template stands for: it binds the fragment, as written, to a `Value`.

use crate::escape::{escape_to_string, escaped};
use crate::html::ops::{
    op_arms_view, op_branches_view, ops_view, pieces_view, AttrArg, AttrArgView, Op, OpArmView,
    OpView, Piece, PieceView,
};
use crate::html::syntax::InterpValueType;
use crate::spread::syntax::ImplTagsView;
use crate::token::{same_tokens, tokenize, tokens_view, Token, TokenView, TokenizeError};
use crate::types::attrs::Bundle;
use vstd::prelude::*;
use vstd::string::*;

verus! {

/// What a host fragment stands for when a template is rendered.
#[derive(Debug, PartialEq, Eq)]
pub enum Value {
    /// A value with a textual form; it is escaped where it is put out.
    Text(String),
    /// Markup that is escaped already; a slot puts it out as it stands.
    Markup(String),
    /// A condition.
    Flag(bool),
    /// An optional value that is absent.
    Absent,
    /// A bundle of attributes.
    Attrs(Bundle),
    /// The subject of a `@match`: the pattern of the arm that it selects, and what that
    /// pattern binds.
    Case { pattern: Vec<Token>, scope: Bindings },
    /// The iterable of a `@for`: for each item, what the binder binds.
    Items(Vec<Bindings>),
}

/// One host fragment and what it stands for.
#[derive(Debug, PartialEq, Eq)]
pub struct Binding {
    pub fragment: Vec<Token>,
    pub value: Value,
}

/// The bindings of one scope. Of two bindings of one fragment the later counts.
#[derive(Debug, PartialEq, Eq)]
pub struct Bindings {
    pub entries: Vec<Binding>,
}

pub enum ValueView {
    Text(Seq<char>),
    Markup(Seq<char>),
    Flag(bool),
    Absent,
    Attrs { raw: Seq<char>, tags: ImplTagsView },
    Case { pattern: Seq<TokenView>, scope: Seq<BindingView> },
    Items(Seq<Seq<BindingView>>),
}

pub struct BindingView {
    pub fragment: Seq<TokenView>,
    pub value: ValueView,
}

/// The values of a sequence of bindings.
pub open spec fn entries_view(entries: Seq<Binding>) -> Seq<BindingView>
    decreases entries, 0nat,
{
    Seq::new(
        entries.len(),
        |i: int|
            if 0 <= i < entries.len() {
                binding_view(entries[i])
            } else {
                BindingView { fragment: Seq::empty(), value: ValueView::Absent }
            },
    )
}

/// The values of a sequence of scopes.
pub open spec fn scopes_view(scopes: Seq<Bindings>) -> Seq<Seq<BindingView>>
    decreases scopes, 0nat,
{
    Seq::new(
        scopes.len(),
        |i: int|
            if 0 <= i < scopes.len() {
                bindings_view(scopes[i])
            } else {
                Seq::empty()
            },
    )
}

pub open spec fn bindings_view(bindings: Bindings) -> Seq<BindingView>
    decreases bindings, 1nat,
{
    entries_view(bindings.entries@)
}

pub open spec fn binding_view(binding: Binding) -> BindingView
    decreases binding, 1nat,
{
    BindingView { fragment: tokens_view(binding.fragment@), value: value_view(binding.value) }
}

pub open spec fn value_view(value: Value) -> ValueView
    decreases value, 1nat,
{
    match value {
        Value::Text(text) => ValueView::Text(text@),
        Value::Markup(text) => ValueView::Markup(text@),
        Value::Flag(b) => ValueView::Flag(b),
        Value::Absent => ValueView::Absent,
        Value::Attrs(bundle) => ValueView::Attrs { raw: bundle.raw@, tags: bundle.tags@ },
        Value::Case { pattern, scope } => ValueView::Case {
            pattern: tokens_view(pattern@),
            scope: bindings_view(scope),
        },
        Value::Items(scopes) => ValueView::Items(scopes_view(scopes@)),
    }
}

impl View for Value {
    type V = ValueView;

    open spec fn view(&self) -> ValueView {
        value_view(*self)
    }
}

impl View for Binding {
    type V = BindingView;

    open spec fn view(&self) -> BindingView {
        binding_view(*self)
    }
}

impl View for Bindings {
    type V = Seq<BindingView>;

    open spec fn view(&self) -> Seq<BindingView> {
        bindings_view(*self)
    }
}

/// The scopes in force at one point of a rendering, the innermost last.
pub open spec fn frames_view(frames: Seq<&Bindings>) -> Seq<Seq<BindingView>> {
    Seq::new(frames.len(), |i: int| bindings_view(*frames[i]))
}

/// Why a rendering failed.
#[derive(Clone, Copy, Debug, PartialEq, Eq, Structural)]
pub enum RenderError {
    /// A fragment of the template has no binding.
    Unbound,
    /// A fragment is bound to a value of a kind that cannot stand where the fragment
    /// stands.
    Mismatch,
    /// A bundle is spread on a tag that it does not allow.
    NoAccessor,
    /// No arm of a `@match` has the pattern that the subject selects.
    NoArm,
}

/// What `fragment` stands for in one scope: the value of its last binding.
pub open spec fn lookup_in(scope: Seq<BindingView>, fragment: Seq<TokenView>) -> Option<ValueView>
    decreases scope.len(),
{
    if scope.len() == 0 {
        None
    } else if scope.last().fragment == fragment {
        Some(scope.last().value)
    } else {
        lookup_in(scope.drop_last(), fragment)
    }
}

/// What `fragment` stands for: its value in the innermost scope that binds it.
pub open spec fn lookup(frames: Seq<Seq<BindingView>>, fragment: Seq<TokenView>) -> Option<
    ValueView,
>
    decreases frames.len(),
{
    if frames.len() == 0 {
        None
    } else {
        match lookup_in(frames.last(), fragment) {
            Some(value) => Some(value),
            None => lookup(frames.drop_last(), fragment),
        }
    }
}

/// The text of one attribute value in its quotes behind the name.
pub open spec fn named_value(name: Seq<char>, text: Seq<char>) -> Seq<char> {
    seq![' '] + name + seq!['=', '"'] + text + seq!['"']
}

/// What a bundle puts out on the tag `tag`: its serialization, where it allows the tag.
pub open spec fn spread_text(raw: Seq<char>, tags: ImplTagsView, tag: Seq<char>) -> Result<
    Seq<char>,
    RenderError,
> {
    if tags.allows(tag) {
        Ok(raw)
    } else {
        Err(RenderError::NoAccessor)
    }
}

/// What fills a placeholder, given what its fragment stands for.
pub open spec fn arg_text(arg: AttrArgView, value: Option<ValueView>) -> Result<
    Seq<char>,
    RenderError,
> {
    match value {
        None => Err(RenderError::Unbound),
        Some(value) => match arg {
            AttrArgView::Toggle { name, .. } => match value {
                ValueView::Flag(on) => if on {
                    Ok(seq![' '] + name)
                } else {
                    Ok(Seq::empty())
                },
                _ => Err(RenderError::Mismatch),
            },
            AttrArgView::Escaped { .. } => match value {
                ValueView::Text(text) => Ok(escaped(text)),
                ValueView::Markup(text) => Ok(escaped(text)),
                _ => Err(RenderError::Mismatch),
            },
            AttrArgView::Optional { name, .. } => match value {
                ValueView::Absent => Ok(Seq::empty()),
                ValueView::Text(text) => Ok(named_value(name, escaped(text))),
                ValueView::Markup(text) => Ok(named_value(name, escaped(text))),
                _ => Err(RenderError::Mismatch),
            },
            AttrArgView::Spread { tag, wrapper, .. } => match value {
                ValueView::Attrs { raw, tags } => spread_text(raw, tags, tag),
                ValueView::Absent => if wrapper == InterpValueType::Optional {
                    Ok(Seq::empty())
                } else {
                    Err(RenderError::Mismatch)
                },
                _ => Err(RenderError::Mismatch),
            },
        },
    }
}

/// The fragment of a placeholder.
pub open spec fn arg_fragment(arg: AttrArgView) -> Seq<TokenView> {
    match arg {
        AttrArgView::Toggle { condition, .. } => condition,
        AttrArgView::Escaped { value } => value,
        AttrArgView::Optional { value, .. } => value,
        AttrArgView::Spread { value, .. } => value,
    }
}

/// The text of one template piece.
pub open spec fn piece_text(piece: PieceView, frames: Seq<Seq<BindingView>>) -> Result<
    Seq<char>,
    RenderError,
> {
    match piece {
        PieceView::Text(text) => Ok(text),
        PieceView::Arg(arg) => arg_text(arg, lookup(frames, arg_fragment(arg))),
    }
}

/// `text` put in front of what the rest of a rendering gives.
pub open spec fn after(text: Seq<char>, rest: Result<Seq<char>, RenderError>) -> Result<
    Seq<char>,
    RenderError,
> {
    match rest {
        Ok(more) => Ok(text + more),
        Err(e) => Err(e),
    }
}

/// One result and then another: the texts joined, or the first error.
pub open spec fn joined(
    first: Result<Seq<char>, RenderError>,
    rest: Result<Seq<char>, RenderError>,
) -> Result<Seq<char>, RenderError> {
    match first {
        Ok(text) => after(text, rest),
        Err(e) => Err(e),
    }
}

/// The text of the template pieces from the index `from` on.
pub open spec fn spec_render_pieces(
    pieces: Seq<PieceView>,
    from: int,
    frames: Seq<Seq<BindingView>>,
) -> Result<Seq<char>, RenderError>
    decreases pieces.len() - from,
{
    if 0 <= from < pieces.len() {
        joined(piece_text(pieces[from], frames), spec_render_pieces(pieces, from + 1, frames))
    } else {
        Ok(Seq::empty())
    }
}

/// The index of the first arm from `from` on that has the pattern `pattern`; the number
/// of arms if there is none.
pub open spec fn find_arm(arms: Seq<OpArmView>, pattern: Seq<TokenView>, from: int) -> int
    decreases arms.len() - from,
{
    if 0 <= from < arms.len() {
        if arms[from].pattern == pattern {
            from
        } else {
            find_arm(arms, pattern, from + 1)
        }
    } else {
        arms.len() as int
    }
}

/// The number of branches of an `@if` operation, and one more; 0 for any other operation.
pub open spec fn branch_measure(op: OpView) -> nat {
    match op {
        OpView::If { branches, .. } => branches.len() + 1,
        _ => 0,
    }
}

/// The text that the operations from the index `from` on put out.
pub open spec fn spec_render_from(ops: Seq<OpView>, from: int, frames: Seq<Seq<BindingView>>) -> Result<
    Seq<char>,
    RenderError,
>
    decreases ops, ops.len() - from, 0nat,
{
    if 0 <= from < ops.len() {
        joined(spec_render_op(ops[from], frames), spec_render_from(ops, from + 1, frames))
    } else {
        Ok(Seq::empty())
    }
}

/// The text that a sequence of operations puts out, with the scopes `frames` in force.
pub open spec fn spec_render(ops: Seq<OpView>, frames: Seq<Seq<BindingView>>) -> Result<
    Seq<char>,
    RenderError,
>
    decreases ops, ops.len() + 1, 0nat,
{
    spec_render_from(ops, 0, frames)
}

/// The text that a `@for` body puts out for the items from the index `from` on: the body
/// rendered once for each, with what the item binds as the innermost scope.
pub open spec fn spec_render_items(
    body: Seq<OpView>,
    items: Seq<Seq<BindingView>>,
    from: int,
    frames: Seq<Seq<BindingView>>,
) -> Result<Seq<char>, RenderError>
    decreases body, body.len() + 2 + items.len() - from, 0nat,
{
    if 0 <= from < items.len() {
        joined(
            spec_render(body, frames.push(items[from])),
            spec_render_items(body, items, from + 1, frames),
        )
    } else {
        Ok(Seq::empty())
    }
}

/// The text that an `@if` operation puts out, its branches tried from the index `from`
/// on: the body of the first branch whose condition holds, else that of `otherwise`, else
/// nothing.
pub open spec fn spec_render_if(op: OpView, from: int, frames: Seq<Seq<BindingView>>) -> Result<
    Seq<char>,
    RenderError,
>
    decreases op, branch_measure(op) - 1 - from, 0nat,
{
    match op {
        OpView::If { branches, otherwise } => if 0 <= from < branches.len() {
            match lookup(frames, branches[from].condition) {
                None => Err(RenderError::Unbound),
                Some(ValueView::Flag(on)) => if on {
                    spec_render(branches[from].body, frames)
                } else {
                    spec_render_if(op, from + 1, frames)
                },
                Some(_) => Err(RenderError::Mismatch),
            }
        } else {
            match otherwise {
                Some(body) => spec_render(body, frames),
                None => Ok(Seq::empty()),
            }
        },
        _ => Ok(Seq::empty()),
    }
}

/// The text that one operation puts out.
pub open spec fn spec_render_op(op: OpView, frames: Seq<Seq<BindingView>>) -> Result<
    Seq<char>,
    RenderError,
>
    decreases op, branch_measure(op), 0nat,
{
    match op {
        OpView::Push(text) => Ok(text),
        OpView::Format(pieces) => spec_render_pieces(pieces, 0, frames),
        OpView::PushExpr(fragment) => match lookup(frames, fragment) {
            None => Err(RenderError::Unbound),
            Some(ValueView::Text(text)) => Ok(escaped(text)),
            Some(ValueView::Markup(text)) => Ok(text),
            Some(_) => Err(RenderError::Mismatch),
        },
        OpView::Match(subject, arms) => match lookup(frames, subject) {
            None => Err(RenderError::Unbound),
            Some(ValueView::Case { pattern, scope }) => {
                let i = find_arm(arms, pattern, 0);
                if 0 <= i < arms.len() {
                    spec_render(arms[i].body, frames.push(scope))
                } else {
                    Err(RenderError::NoArm)
                }
            },
            Some(_) => Err(RenderError::Mismatch),
        },
        OpView::If { .. } => spec_render_if(op, 0, frames),
        OpView::For { iterable, body, .. } => match lookup(frames, iterable) {
            None => Err(RenderError::Unbound),
            Some(ValueView::Items(items)) => spec_render_items(body, items, 0, frames),
            Some(_) => Err(RenderError::Mismatch),
        },
    }
}

/// Has a step of a rendering put out what its specification gives? On success `now` is
/// `before` with the text behind it; on failure the error is the specified one.
pub open spec fn appended(
    before: Seq<char>,
    expected: Result<Seq<char>, RenderError>,
    result: Result<(), RenderError>,
    now: Seq<char>,
) -> bool {
    match expected {
        Ok(text) => result is Ok && now == before + text,
        Err(e) => result == Err::<(), RenderError>(e),
    }
}

/// The value of what a lookup found.
pub open spec fn found_view(found: Option<&Value>) -> Option<ValueView> {
    match found {
        Some(value) => Some(value@),
        None => None,
    }
}

/// Looks a fragment up in one scope.
fn lookup_entry<'a>(scope: &'a Bindings, fragment: &Vec<Token>) -> (out: Option<&'a Value>)
    ensures
        found_view(out) == lookup_in(scope@, tokens_view(fragment@)),
{
    let ghost all = scope@;
    let ghost wanted = tokens_view(fragment@);
    let mut j: usize = scope.entries.len();
    assert(all.take(j as int) =~= all);
    while j > 0
        invariant
            j <= scope.entries.len(),
            all == scope@,
            wanted == tokens_view(fragment@),
            lookup_in(all, wanted) == lookup_in(all.take(j as int), wanted),
        decreases j,
    {
        j -= 1;
        proof {
            assert(all.take(j + 1).drop_last() =~= all.take(j as int));
            assert(all.take(j + 1).last() == scope.entries[j as int]@);
        }
        if same_tokens(&scope.entries[j].fragment, fragment) {
            return Some(&scope.entries[j].value);
        }
    }
    None
}

/// Looks a fragment up in the scopes in force, the innermost first.
fn find<'a>(frames: &Vec<&'a Bindings>, fragment: &Vec<Token>) -> (out: Option<&'a Value>)
    ensures
        found_view(out) == lookup(frames_view(frames@), tokens_view(fragment@)),
{
    let ghost all = frames_view(frames@);
    let ghost wanted = tokens_view(fragment@);
    let mut j: usize = frames.len();
    assert(all.take(j as int) =~= all);
    while j > 0
        invariant
            j <= frames.len(),
            all == frames_view(frames@),
            wanted == tokens_view(fragment@),
            lookup(all, wanted) == lookup(all.take(j as int), wanted),
        decreases j,
    {
        j -= 1;
        proof {
            assert(all.take(j + 1).drop_last() =~= all.take(j as int));
            assert(all.take(j + 1).last() == frames[j as int]@);
        }
        match lookup_entry(frames[j], fragment) {
            Some(value) => {
                return Some(value);
            },
            None => {},
        }
    }
    None
}

/// The scopes in force inside a construct that binds `scope`.
fn with_scope<'a>(frames: &Vec<&'a Bindings>, scope: &'a Bindings) -> (out: Vec<&'a Bindings>)
    ensures
        frames_view(out@) == frames_view(frames@).push(scope@),
{
    let mut out: Vec<&'a Bindings> = Vec::new();
    let mut i: usize = 0;
    while i < frames.len()
        invariant
            i <= frames.len(),
            out.len() == i,
            forall|k: int| 0 <= k < i ==> out[k] == frames[k],
        decreases frames.len() - i,
    {
        out.push(frames[i]);
        i += 1;
    }
    out.push(scope);
    assert(frames_view(out@) =~= frames_view(frames@).push(scope@));
    out
}

/// Puts out an attribute's name and its value in quotes.
fn push_named_value(name: &String, text: &String, out: &mut String)
    ensures
        final(out)@ == old(out)@ + named_value(name@, escaped(text@)),
{
    out.push(' ');
    out.append(name.as_str());
    out.push('=');
    out.push('"');
    escape_to_string(text.as_str(), out);
    out.push('"');
    assert(out@ =~= old(out)@ + named_value(name@, escaped(text@)));
}

/// Puts out what fills a placeholder.
fn render_arg(arg: &AttrArg, frames: &Vec<&Bindings>, out: &mut String) -> (result: Result<
    (),
    RenderError,
>)
    ensures
        appended(
            old(out)@,
            arg_text(arg@, lookup(frames_view(frames@), arg_fragment(arg@))),
            result,
            final(out)@,
        ),
{
    let fragment = match arg {
        AttrArg::Toggle { condition, .. } => condition,
        AttrArg::Escaped { value } => value,
        AttrArg::Optional { value, .. } => value,
        AttrArg::Spread { value, .. } => value,
    };
    let value = match find(frames, &fragment.0) {
        None => {
            return Err(RenderError::Unbound);
        },
        Some(value) => value,
    };
    proof {
        assert(out@ + Seq::<char>::empty() =~= out@);
    }
    match arg {
        AttrArg::Toggle { name, .. } => match value {
            Value::Flag(on) => {
                if *on {
                    out.push(' ');
                    out.append(name.as_str());
                    assert(out@ =~= old(out)@ + (seq![' '] + name@));
                }
                Ok(())
            },
            _ => Err(RenderError::Mismatch),
        },
        AttrArg::Escaped { .. } => match value {
            Value::Text(text) => {
                escape_to_string(text.as_str(), out);
                Ok(())
            },
            Value::Markup(text) => {
                escape_to_string(text.as_str(), out);
                Ok(())
            },
            _ => Err(RenderError::Mismatch),
        },
        AttrArg::Optional { name, .. } => match value {
            Value::Absent => Ok(()),
            Value::Text(text) => {
                push_named_value(name, text, out);
                Ok(())
            },
            Value::Markup(text) => {
                push_named_value(name, text, out);
                Ok(())
            },
            _ => Err(RenderError::Mismatch),
        },
        AttrArg::Spread { tag, wrapper, .. } => match value {
            Value::Attrs(bundle) => {
                if bundle.tags.allows(tag.as_str()) {
                    out.append(bundle.raw.as_str());
                    Ok(())
                } else {
                    Err(RenderError::NoAccessor)
                }
            },
            Value::Absent => match wrapper {
                InterpValueType::Optional => Ok(()),
                InterpValueType::Direct => Err(RenderError::Mismatch),
            },
            _ => Err(RenderError::Mismatch),
        },
    }
}

/// Puts out a template with its placeholders filled.
fn render_pieces(pieces: &Vec<Piece>, frames: &Vec<&Bindings>, out: &mut String) -> (result:
    Result<(), RenderError>)
    ensures
        appended(
            old(out)@,
            spec_render_pieces(pieces_view(pieces@), 0, frames_view(frames@)),
            result,
            final(out)@,
        ),
{
    let ghost all = pieces_view(pieces@);
    let ghost fr = frames_view(frames@);
    let ghost mut done: Seq<char> = Seq::empty();
    let mut i: usize = 0;
    proof {
        assert(out@ + done =~= out@);
        lemma_after_nothing(spec_render_pieces(all, 0, fr));
    }
    while i < pieces.len()
        invariant
            i <= pieces.len(),
            all == pieces_view(pieces@),
            fr == frames_view(frames@),
            out@ == old(out)@ + done,
            spec_render_pieces(all, 0, fr) == after(done, spec_render_pieces(all, i as int, fr)),
        decreases pieces.len() - i,
    {
        let ghost before = out@;
        let step = match &pieces[i] {
            Piece::Text(text) => {
                out.append(text.as_str());
                Ok(())
            },
            Piece::Arg(arg) => render_arg(arg, frames, out),
        };
        match step {
            Err(e) => {
                return Err(e);
            },
            Ok(()) => {
                proof {
                    let text = piece_text(all[i as int], fr)->Ok_0;
                    lemma_after_step(done, text, spec_render_pieces(all, i + 1, fr));
                    done = done + text;
                    assert(out@ =~= old(out)@ + done);
                }
            },
        }
        i += 1;
    }
    proof {
        assert(done + Seq::<char>::empty() =~= done);
    }
    Ok(())
}

/// Nothing put in front of a result leaves the result as it is.
pub proof fn lemma_after_nothing(rest: Result<Seq<char>, RenderError>)
    ensures
        after(Seq::empty(), rest) == rest,
{
    match rest {
        Ok(more) => {
            assert(Seq::<char>::empty() + more =~= more);
        },
        Err(_) => {},
    }
}

/// Putting `done` in front of `text` and what follows is putting `done + text` in front of
/// what follows.
pub proof fn lemma_after_step(
    done: Seq<char>,
    text: Seq<char>,
    rest: Result<Seq<char>, RenderError>,
)
    ensures
        after(done, after(text, rest)) == after(done + text, rest),
{
    match rest {
        Ok(more) => {
            assert(done + (text + more) =~= (done + text) + more);
        },
        Err(_) => {},
    }
}

/// Runs one operation.
#[verifier::loop_isolation(false)]
fn render_op(op: &Op, frames: &Vec<&Bindings>, out: &mut String) -> (result: Result<
    (),
    RenderError,
>)
    ensures
        appended(old(out)@, spec_render_op(op@, frames_view(frames@)), result, final(out)@),
    decreases op, 0nat,
{
    let ghost fr = frames_view(frames@);
    proof {
        assert(out@ + Seq::<char>::empty() =~= out@);
    }
    match op {
        Op::Push(text) => {
            out.append(text.as_str());
            Ok(())
        },
        Op::Format(pieces) => render_pieces(pieces, frames, out),
        Op::PushExpr(fragment) => match find(frames, &fragment.0) {
            None => Err(RenderError::Unbound),
            Some(Value::Text(text)) => {
                escape_to_string(text.as_str(), out);
                Ok(())
            },
            Some(Value::Markup(text)) => {
                out.append(text.as_str());
                Ok(())
            },
            Some(_) => Err(RenderError::Mismatch),
        },
        Op::Match(subject, arms) => match find(frames, &subject.0) {
            None => Err(RenderError::Unbound),
            Some(Value::Case { pattern, scope }) => {
                let ghost all = op_arms_view(arms@);
                let ghost wanted = tokens_view(pattern@);
                let mut i: usize = 0;
                while i < arms.len()
                    invariant
                        i <= arms.len(),
                        all == op_arms_view(arms@),
                        wanted == tokens_view(pattern@),
                        out@ == old(out)@,
                        find_arm(all, wanted, 0) == find_arm(all, wanted, i as int),
                    decreases arms.len() - i,
                {
                    if same_tokens(&arms[i].pattern.0, pattern) {
                        let inner = with_scope(frames, scope);
                        return render_ops(&arms[i].body, &inner, out);
                    }
                    i += 1;
                }
                Err(RenderError::NoArm)
            },
            Some(_) => Err(RenderError::Mismatch),
        },
        Op::If { branches, otherwise } => {
            let ghost all = op_branches_view(branches@);
            let mut i: usize = 0;
            while i < branches.len()
                invariant
                    i <= branches.len(),
                    fr == frames_view(frames@),
                    op@ == (OpView::If {
                        branches: op_branches_view(branches@),
                        otherwise: match otherwise {
                            Some(body) => Some(ops_view(body@)),
                            None => None,
                        },
                    }),
                    out@ == old(out)@,
                    spec_render_op(op@, fr) == spec_render_if(op@, i as int, fr),
                decreases branches.len() - i,
            {
                match find(frames, &branches[i].condition.0) {
                    None => {
                        return Err(RenderError::Unbound);
                    },
                    Some(Value::Flag(on)) => {
                        if *on {
                            return render_ops(&branches[i].body, frames, out);
                        }
                    },
                    Some(_) => {
                        return Err(RenderError::Mismatch);
                    },
                }
                i += 1;
            }
            match otherwise {
                Some(body) => render_ops(body, frames, out),
                None => Ok(()),
            }
        },
        Op::For { iterable, body, .. } => match find(frames, &iterable.0) {
            None => Err(RenderError::Unbound),
            Some(Value::Items(items)) => {
                let ghost all = scopes_view(items@);
                let ghost lowered = ops_view(body@);
                let ghost mut done: Seq<char> = Seq::empty();
                let mut i: usize = 0;
                proof {
                    assert(out@ + done =~= out@);
                    lemma_after_nothing(spec_render_items(lowered, all, 0, fr));
                }
                while i < items.len()
                    invariant
                        i <= items.len(),
                        fr == frames_view(frames@),
                        all == scopes_view(items@),
                        lowered == ops_view(body@),
                        out@ == old(out)@ + done,
                        spec_render_items(lowered, all, 0, fr) == after(
                            done,
                            spec_render_items(lowered, all, i as int, fr),
                        ),
                    decreases items.len() - i,
                {
                    let inner = with_scope(frames, &items[i]);
                    match render_ops(body, &inner, out) {
                        Err(e) => {
                            return Err(e);
                        },
                        Ok(()) => {
                            proof {
                                let text = spec_render(lowered, fr.push(all[i as int]))->Ok_0;
                                lemma_after_step(
                                    done,
                                    text,
                                    spec_render_items(lowered, all, i + 1, fr),
                                );
                                done = done + text;
                                assert(out@ =~= old(out)@ + done);
                            }
                        },
                    }
                    i += 1;
                }
                proof {
                    assert(done + Seq::<char>::empty() =~= done);
                }
                Ok(())
            },
            Some(_) => Err(RenderError::Mismatch),
        },
    }
}

/// Runs the operations `ops` with the scopes `frames` in force and puts their text behind
/// what `out` holds.
fn render_ops(ops: &Vec<Op>, frames: &Vec<&Bindings>, out: &mut String) -> (result: Result<
    (),
    RenderError,
>)
    ensures
        appended(old(out)@, spec_render(ops_view(ops@), frames_view(frames@)), result, final(out)@),
    decreases ops, 1nat,
{
    let ghost all = ops_view(ops@);
    let ghost fr = frames_view(frames@);
    let ghost mut done: Seq<char> = Seq::empty();
    let mut i: usize = 0;
    proof {
        assert(out@ + done =~= out@);
        lemma_after_nothing(spec_render_from(all, 0, fr));
    }
    while i < ops.len()
        invariant
            i <= ops.len(),
            all == ops_view(ops@),
            fr == frames_view(frames@),
            out@ == old(out)@ + done,
            spec_render_from(all, 0, fr) == after(done, spec_render_from(all, i as int, fr)),
        decreases ops.len() - i,
    {
        match render_op(&ops[i], frames, out) {
            Err(e) => {
                return Err(e);
            },
            Ok(()) => {
                proof {
                    let text = spec_render_op(all[i as int], fr)->Ok_0;
                    lemma_after_step(done, text, spec_render_from(all, i + 1, fr));
                    done = done + text;
                    assert(out@ =~= old(out)@ + done);
                }
            },
        }
        i += 1;
    }
    proof {
        assert(done + Seq::<char>::empty() =~= done);
    }
    Ok(())
}

impl Bindings {
    /// A scope without bindings.
    pub fn new() -> (out: Bindings)
        ensures
            out@ == Seq::<BindingView>::empty(),
    {
        let out = Bindings { entries: Vec::new() };
        assert(out@ =~= Seq::<BindingView>::empty());
        out
    }

    /// Binds the fragment `fragment` to `value`.
    pub fn bind(&mut self, fragment: Vec<Token>, value: Value)
        ensures
            final(self)@ == old(self)@.push(
                BindingView { fragment: tokens_view(fragment@), value: value@ },
            ),
    {
        self.entries.push(Binding { fragment, value });
        assert(self@ =~= old(self)@.push(
            BindingView { fragment: tokens_view(fragment@), value: value@ },
        ));
    }

    /// Binds the fragment written as `fragment` to `value`. A text that cannot be split
    /// into tokens is refused, and the scope stays as it is.
    pub fn set(&mut self, fragment: &str, value: Value) -> (out: Result<(), TokenizeError>)
        ensures
            match crate::token::lexed(fragment@) {
                Some(tokens) => out is Ok && final(self)@ == old(self)@.push(
                    BindingView { fragment: tokens, value: value@ },
                ),
                None => out is Err && final(self)@ == old(self)@,
            },
    {
        match tokenize(fragment) {
            Ok(tokens) => {
                self.bind(tokens, value);
                Ok(())
            },
            Err(e) => Err(e),
        }
    }
}

/// Runs the operations `ops` with the bindings `bindings` and returns the text they put
/// out.
pub fn render(ops: &Vec<Op>, bindings: &Bindings) -> (out: Result<String, RenderError>)
    ensures
        match spec_render(ops_view(ops@), seq![bindings@]) {
            Ok(text) => out matches Ok(s) && s@ == text,
            Err(e) => out == Err::<String, RenderError>(e),
        },
{
    render_with_capacity(ops, bindings, 0)
}

/// The most room that an output buffer starts with.
pub const MAX_INITIAL_CAPACITY: usize = 0x10_0000;

/// Runs the operations `ops` with the bindings `bindings` and returns the text they put
/// out. The output buffer starts with room for `capacity` bytes, or for
/// `MAX_INITIAL_CAPACITY` where `capacity` is more; it grows as the text does.
pub fn render_with_capacity(ops: &Vec<Op>, bindings: &Bindings, capacity: usize) -> (out: Result<
    String,
    RenderError,
>)
    ensures
        match spec_render(ops_view(ops@), seq![bindings@]) {
            Ok(text) => out matches Ok(s) && s@ == text,
            Err(e) => out == Err::<String, RenderError>(e),
        },
{
    let mut frames: Vec<&Bindings> = Vec::new();
    frames.push(bindings);
    assert(frames_view(frames@) =~= seq![bindings@]);
    let room = if capacity <= MAX_INITIAL_CAPACITY {
        capacity
    } else {
        MAX_INITIAL_CAPACITY
    };
    let mut text = String::with_capacity(room);
    match render_ops(ops, &frames, &mut text) {
        Ok(()) => {
            assert(Seq::<char>::empty() + text@ =~= text@);
            Ok(text)
        },
        Err(e) => Err(e),
    }
}

/// Joining results does not depend on how they are grouped.
pub proof fn lemma_joined_assoc(
    x: Result<Seq<char>, RenderError>,
    y: Result<Seq<char>, RenderError>,
    z: Result<Seq<char>, RenderError>,
)
    ensures
        joined(x, joined(y, z)) == joined(joined(x, y), z),
{
    match (x, y, z) {
        (Ok(a), Ok(b), Ok(c)) => {
            assert(a + (b + c) =~= (a + b) + c);
        },
        _ => {},
    }
}

/// Behind the operations `a`, a joined sequence runs as `b` does.
pub proof fn lemma_render_from_shift(
    a: Seq<OpView>,
    b: Seq<OpView>,
    j: int,
    frames: Seq<Seq<BindingView>>,
)
    requires
        0 <= j <= b.len(),
    ensures
        spec_render_from(a + b, a.len() + j, frames) == spec_render_from(b, j, frames),
    decreases b.len() - j,
{
    if j < b.len() {
        lemma_render_from_shift(a, b, j + 1, frames);
        assert((a + b)[a.len() + j] == b[j]);
    }
}

/// From an index within `a`, a joined sequence puts out the rest of `a` and then `b`.
pub proof fn lemma_render_from_prefix(
    a: Seq<OpView>,
    b: Seq<OpView>,
    i: int,
    frames: Seq<Seq<BindingView>>,
)
    requires
        0 <= i <= a.len(),
    ensures
        spec_render_from(a + b, i, frames) == joined(
            spec_render_from(a, i, frames),
            spec_render_from(b, 0, frames),
        ),
    decreases a.len() - i,
{
    if i < a.len() {
        lemma_render_from_prefix(a, b, i + 1, frames);
        assert((a + b)[i] == a[i]);
        lemma_joined_assoc(
            spec_render_op(a[i], frames),
            spec_render_from(a, i + 1, frames),
            spec_render_from(b, 0, frames),
        );
    } else {
        lemma_render_from_shift(a, b, 0, frames);
        lemma_after_nothing(spec_render_from(b, 0, frames));
    }
}

/// Two sequences of operations, one behind the other, put out what the first puts out
/// and then what the second puts out; the first error ends the rendering.
pub proof fn lemma_render_concat(a: Seq<OpView>, b: Seq<OpView>, frames: Seq<Seq<BindingView>>)
    ensures
        spec_render(a + b, frames) == joined(spec_render(a, frames), spec_render(b, frames)),
{
    lemma_render_from_prefix(a, b, 0, frames);
}

/// A single operation renders as itself.
pub proof fn lemma_render_one(op: OpView, frames: Seq<Seq<BindingView>>)
    ensures
        spec_render(seq![op], frames) == spec_render_op(op, frames),
{
    reveal_with_fuel(spec_render_from, 2);
    match spec_render_op(op, frames) {
        Ok(text) => {
            assert(text + Seq::<char>::empty() =~= text);
        },
        Err(_) => {},
    }
}

} // verus!
