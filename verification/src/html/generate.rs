//! Lowering: from the markup tree to output operations.

use crate::html::ops::{
    op_arms_view, op_branches_view, ops_view, pieces_view, AttrArg, AttrArgView, Op, OpArm,
    OpArmView, OpBranch, OpBranchView, OpView, Piece, PieceView,
};
use crate::html::syntax::{
    arms_view, attrs_view, branches_view, literals_text, lits_view, markups_view, Arm, ArmView,
    Branch, BranchView, External, InterpMarkupExpr, InterpValue, InterpValueType, InterpValueView,
    Markup, MarkupId, MarkupIdView, MarkupLit, MarkupLitView, MarkupView, SlotView, TagAttribute,
    TagAttributeView,
};
use crate::text::{doubled_braces, push_doubled};
use crate::token::duplicate_tokens;
use vstd::prelude::*;
use vstd::string::*;

verus! {

/// The fixed text of an attribute with the name `name` and the literal value `value`: a
/// space and the name, and behind them the value in quotes after `=`, if there is one.
pub open spec fn literal_attr_text(name: MarkupIdView, value: Option<MarkupLitView>) -> Seq<char> {
    match value {
        None => seq![' '] + name.text(),
        Some(lit) => seq![' '] + name.text() + seq!['=', '"'] + lit.text() + seq!['"'],
    }
}

/// The template pieces of one attribute.
pub open spec fn spec_lower_attr(attr: TagAttributeView) -> Seq<PieceView> {
    match attr {
        TagAttributeView::Lit { name, value } => seq![
            PieceView::Text(literal_attr_text(name, value)),
        ],
        TagAttributeView::Interpolated { kind, value } => match kind {
            InterpValueView::Toggle { name } => seq![
                PieceView::Arg(AttrArgView::Toggle { condition: value, name: name.text() }),
            ],
            InterpValueView::NameValue { name, wrapper } => match wrapper {
                InterpValueType::Direct => seq![
                    PieceView::Text(seq![' '] + name.text() + seq!['=', '"']),
                    PieceView::Arg(AttrArgView::Escaped { value }),
                    PieceView::Text(seq!['"']),
                ],
                InterpValueType::Optional => seq![
                    PieceView::Arg(AttrArgView::Optional { value, name: name.text() }),
                ],
            },
            InterpValueView::Spread { tag, wrapper } => seq![
                PieceView::Arg(AttrArgView::Spread { value, tag: tag.text(), wrapper }),
            ],
        },
    }
}

/// The template pieces of a tag's attributes, in the order in which they were written.
/// Attributes of one name all stay: none is dropped or merged.
pub open spec fn spec_lower_attrs(attrs: Seq<TagAttributeView>) -> Seq<PieceView>
    decreases attrs.len(),
{
    if attrs.len() == 0 {
        Seq::empty()
    } else {
        spec_lower_attrs(attrs.drop_last()) + spec_lower_attr(attrs.last())
    }
}

/// The template of an opening tag: `<` and the tag's name, the attributes, `>`.
pub open spec fn spec_open_pieces(tag: MarkupIdView, attrs: Seq<TagAttributeView>) -> Seq<
    PieceView,
> {
    seq![PieceView::Text(seq!['<'] + tag.text())] + spec_lower_attrs(attrs) + seq![
        PieceView::Text(seq!['>']),
    ]
}

/// Does the template hold a placeholder?
pub open spec fn has_arg(pieces: Seq<PieceView>) -> bool
    decreases pieces.len(),
{
    if pieces.len() == 0 {
        false
    } else {
        has_arg(pieces.drop_last()) || pieces.last() is Arg
    }
}

/// The fixed text of the template, its placeholders left out.
pub open spec fn pieces_text(pieces: Seq<PieceView>) -> Seq<char>
    decreases pieces.len(),
{
    if pieces.len() == 0 {
        Seq::empty()
    } else {
        pieces_text(pieces.drop_last()) + match pieces.last() {
            PieceView::Text(text) => text,
            PieceView::Arg(_) => Seq::empty(),
        }
    }
}

/// The operation for an opening tag: one append of fixed text where no attribute is
/// interpolated, one formatted append otherwise.
pub open spec fn spec_open(tag: MarkupIdView, attrs: Seq<TagAttributeView>) -> OpView {
    let pieces = spec_open_pieces(tag, attrs);
    if has_arg(pieces) {
        OpView::Format(pieces)
    } else {
        OpView::Push(pieces_text(pieces))
    }
}

/// The operation for a closing tag.
pub open spec fn spec_close(tag: MarkupIdView) -> OpView {
    OpView::Push(seq!['<', '/'] + tag.text() + seq!['>'])
}

/// The operations for the nodes from the index `from` on.
pub open spec fn spec_lower_from(nodes: Seq<MarkupView>, from: int) -> Seq<OpView>
    decreases nodes, nodes.len() - from, 0nat,
{
    if 0 <= from < nodes.len() {
        spec_lower_node(nodes[from]) + spec_lower_from(nodes, from + 1)
    } else {
        Seq::empty()
    }
}

/// The operations for a sequence of nodes: those of each node, in order.
pub open spec fn spec_lower(nodes: Seq<MarkupView>) -> Seq<OpView>
    decreases nodes, nodes.len() + 1, 0nat,
{
    spec_lower_from(nodes, 0)
}

/// The lowered arms of a `@match`: each pattern kept, each body lowered.
pub open spec fn spec_lower_arms(arms: Seq<ArmView>) -> Seq<OpArmView>
    decreases arms, 0nat, 0nat,
{
    Seq::new(
        arms.len(),
        |i: int|
            if 0 <= i < arms.len() {
                OpArmView { pattern: arms[i].pattern, body: spec_lower(arms[i].body) }
            } else {
                OpArmView { pattern: Seq::empty(), body: Seq::empty() }
            },
    )
}

/// The lowered branches of an `@if`: each condition kept, each body lowered.
pub open spec fn spec_lower_branches(branches: Seq<BranchView>) -> Seq<OpBranchView>
    decreases branches, 0nat, 0nat,
{
    Seq::new(
        branches.len(),
        |i: int|
            if 0 <= i < branches.len() {
                OpBranchView {
                    condition: branches[i].condition,
                    body: spec_lower(branches[i].body),
                }
            } else {
                OpBranchView { condition: Seq::empty(), body: Seq::empty() }
            },
    )
}

/// The operations for one node.
///
/// A literal sequence is one append of its joined text. A tag is its opening operation
/// and, where it has a body, the operations of its children and the append of its closing
/// tag. An anonymous block is the operations of its children. An expression slot is one
/// append of the expression's escaped text. A control slot keeps its host fragments and
/// lowers each body.
pub open spec fn spec_lower_node(node: MarkupView) -> Seq<OpView>
    decreases node, 0nat, 1nat,
{
    match node {
        MarkupView::LiteralSequence(lits) => seq![OpView::Push(literals_text(lits))],
        MarkupView::Tag { tag, attrs, inner } => match inner {
            None => seq![spec_open(tag, attrs)],
            Some(children) => seq![spec_open(tag, attrs)] + spec_lower(children) + seq![
                spec_close(tag),
            ],
        },
        MarkupView::AnonBlock(children) => spec_lower(children),
        MarkupView::Slot(slot) => match slot {
            SlotView::Simple(value) => seq![OpView::PushExpr(value)],
            SlotView::Match(subject, arms) => seq![
                OpView::Match(subject, spec_lower_arms(arms)),
            ],
            SlotView::If { branches, otherwise } => seq![
                OpView::If {
                    branches: spec_lower_branches(branches),
                    otherwise: match otherwise {
                        Some(body) => Some(spec_lower(body)),
                        None => None,
                    },
                },
            ],
            SlotView::For { binder, iterable, body } => seq![
                OpView::For { binder, iterable, body: spec_lower(body) },
            ],
        },
    }
}

/// The template of an opening tag while it is put together.
struct Opening {
    pieces: Vec<Piece>,
    text: String,
    dynamic: bool,
}

impl Opening {
    /// `text` and `dynamic` say of `pieces` what `pieces_text` and `has_arg` say.
    spec fn wf(&self) -> bool {
        &&& self.dynamic == has_arg(pieces_view(self.pieces@))
        &&& self.text@ == pieces_text(pieces_view(self.pieces@))
    }

    fn new() -> (out: Opening)
        ensures
            out.wf(),
            pieces_view(out.pieces@) == Seq::<PieceView>::empty(),
    {
        let out = Opening { pieces: Vec::new(), text: String::new(), dynamic: false };
        assert(pieces_view(out.pieces@) =~= Seq::<PieceView>::empty());
        out
    }

    fn push_text(&mut self, text: String)
        requires
            old(self).wf(),
        ensures
            final(self).wf(),
            pieces_view(final(self).pieces@) == pieces_view(old(self).pieces@).push(
                PieceView::Text(text@),
            ),
    {
        let ghost before = pieces_view(self.pieces@);
        self.text.append(text.as_str());
        self.pieces.push(Piece::Text(text));
        proof {
            let after = pieces_view(self.pieces@);
            assert(after =~= before.push(PieceView::Text(text@)));
            assert(after.drop_last() =~= before);
        }
    }

    fn push_arg(&mut self, arg: AttrArg)
        requires
            old(self).wf(),
        ensures
            final(self).wf(),
            pieces_view(final(self).pieces@) == pieces_view(old(self).pieces@).push(
                PieceView::Arg(arg@),
            ),
    {
        let ghost before = pieces_view(self.pieces@);
        self.dynamic = true;
        self.pieces.push(Piece::Arg(arg));
        proof {
            let after = pieces_view(self.pieces@);
            assert(after =~= before.push(PieceView::Arg(arg@)));
            assert(after.drop_last() =~= before);
            assert(self.text@ + Seq::<char>::empty() =~= self.text@);
        }
    }
}

/// A copy of a host fragment.
fn duplicate_external(value: &External) -> (out: External)
    ensures
        out@ == value@,
{
    External(duplicate_tokens(&value.0))
}

/// Puts the pieces of one attribute behind those in `opening`.
fn lower_attr(attr: &TagAttribute, opening: &mut Opening)
    requires
        old(opening).wf(),
    ensures
        final(opening).wf(),
        pieces_view(final(opening).pieces@) == pieces_view(old(opening).pieces@)
            + spec_lower_attr(attr@),
{
    let ghost before = pieces_view(opening.pieces@);
    match attr {
        TagAttribute::Lit { name, value } => {
            let mut text = String::new();
            text.push(' ');
            let name_text = name.text();
            text.append(name_text.as_str());
            match value {
                Some(lit) => {
                    text.push('=');
                    text.push('"');
                    lit.push_to_string(&mut text);
                    text.push('"');
                    assert(text@ =~= literal_attr_text(name@, Some(lit@)));
                },
                None => {
                    assert(text@ =~= literal_attr_text(name@, None));
                },
            }
            opening.push_text(text);
        },
        TagAttribute::Interpolated { kind, value } => match kind {
            InterpValue::Toggle { name } => {
                opening.push_arg(
                    AttrArg::Toggle { condition: duplicate_external(value), name: name.text() },
                );
            },
            InterpValue::NameValue { name, wrapper } => match wrapper {
                InterpValueType::Direct => {
                    let mut head = String::new();
                    head.push(' ');
                    let name_text = name.text();
                    head.append(name_text.as_str());
                    head.push('=');
                    head.push('"');
                    assert(head@ =~= seq![' '] + name@.text() + seq!['=', '"']);
                    opening.push_text(head);
                    opening.push_arg(AttrArg::Escaped { value: duplicate_external(value) });
                    let mut tail = String::new();
                    tail.push('"');
                    assert(tail@ =~= seq!['"']);
                    opening.push_text(tail);
                },
                InterpValueType::Optional => {
                    opening.push_arg(
                        AttrArg::Optional { value: duplicate_external(value), name: name.text() },
                    );
                },
            },
            InterpValue::Spread { tag, wrapper } => {
                opening.push_arg(
                    AttrArg::Spread {
                        value: duplicate_external(value),
                        tag: tag.text(),
                        wrapper: *wrapper,
                    },
                );
            },
        },
    }
    assert(pieces_view(opening.pieces@) =~= before + spec_lower_attr(attr@));
}

/// The operation for the opening tag of `tag` with the attributes `attrs`.
fn lower_open(tag: &MarkupId, attrs: &Vec<TagAttribute>) -> (out: Op)
    ensures
        out@ == spec_open(tag@, attrs_view(attrs@)),
{
    let ghost all = attrs_view(attrs@);
    let mut opening = Opening::new();
    let mut head = String::new();
    head.push('<');
    let name = tag.text();
    head.append(name.as_str());
    assert(head@ =~= seq!['<'] + tag@.text());
    let ghost first = seq![PieceView::Text(head@)];
    opening.push_text(head);
    let mut i: usize = 0;
    assert(all.take(0) =~= Seq::<TagAttributeView>::empty());
    assert(pieces_view(opening.pieces@) =~= first + spec_lower_attrs(all.take(0)));
    while i < attrs.len()
        invariant
            i <= attrs.len(),
            all == attrs_view(attrs@),
            opening.wf(),
            pieces_view(opening.pieces@) == first + spec_lower_attrs(all.take(i as int)),
        decreases attrs.len() - i,
    {
        let ghost before = pieces_view(opening.pieces@);
        lower_attr(&attrs[i], &mut opening);
        proof {
            assert(all.take(i + 1).drop_last() =~= all.take(i as int));
            assert(all.take(i + 1).last() == attrs[i as int]@);
            assert(first + spec_lower_attrs(all.take(i + 1)) =~= (first + spec_lower_attrs(
                all.take(i as int),
            )) + spec_lower_attr(attrs[i as int]@));
        }
        i += 1;
    }
    assert(all.take(attrs.len() as int) =~= all);
    let mut tail = String::new();
    tail.push('>');
    assert(tail@ =~= seq!['>']);
    opening.push_text(tail);
    assert(pieces_view(opening.pieces@) =~= spec_open_pieces(tag@, all));
    if opening.dynamic {
        Op::Format(opening.pieces)
    } else {
        Op::Push(opening.text)
    }
}

/// The operation for the closing tag of `tag`.
fn lower_close(tag: &MarkupId) -> (out: Op)
    ensures
        out@ == spec_close(tag@),
{
    let mut text = String::new();
    text.push('<');
    text.push('/');
    let name = tag.text();
    text.append(name.as_str());
    text.push('>');
    assert(text@ =~= seq!['<', '/'] + tag@.text() + seq!['>']);
    Op::Push(text)
}

/// The joined text of a literal sequence.
fn join_literals(lits: &Vec<MarkupLit>) -> (out: String)
    ensures
        out@ == literals_text(lits_view(lits@)),
{
    let ghost all = lits_view(lits@);
    let mut out = String::new();
    let mut i: usize = 0;
    assert(all.take(0) =~= Seq::<MarkupLitView>::empty());
    while i < lits.len()
        invariant
            i <= lits.len(),
            all == lits_view(lits@),
            out@ == literals_text(all.take(i as int)),
        decreases lits.len() - i,
    {
        lits[i].push_to_string(&mut out);
        proof {
            assert(all.take(i + 1).drop_last() =~= all.take(i as int));
            assert(all.take(i + 1).last() == lits[i as int]@);
        }
        i += 1;
    }
    assert(all.take(lits.len() as int) =~= all);
    out
}

/// Lowers the arms of a `@match`.
fn lower_arms(arms: &Vec<Arm>) -> (out: Vec<OpArm>)
    ensures
        op_arms_view(out@) == spec_lower_arms(arms_view(arms@)),
    decreases arms, 0nat,
{
    let mut out: Vec<OpArm> = Vec::new();
    let mut i: usize = 0;
    while i < arms.len()
        invariant
            i <= arms.len(),
            out.len() == i,
            forall|k: int|
                0 <= k < i ==> out[k]@ == (OpArmView {
                    pattern: arms[k]@.pattern,
                    body: spec_lower(arms[k]@.body),
                }),
        decreases arms.len() - i,
    {
        let arm = &arms[i];
        let mut body: Vec<Op> = Vec::new();
        markup_as_string_push_operations(&arm.body, &mut body);
        assert(ops_view(body@) =~= spec_lower(markups_view(arm.body@)));
        out.push(OpArm { pattern: duplicate_external(&arm.pattern), body });
        i += 1;
    }
    assert(op_arms_view(out@) =~= spec_lower_arms(arms_view(arms@)));
    out
}

/// Lowers the branches of an `@if`.
fn lower_branches(branches: &Vec<Branch>) -> (out: Vec<OpBranch>)
    ensures
        op_branches_view(out@) == spec_lower_branches(branches_view(branches@)),
    decreases branches, 0nat,
{
    let mut out: Vec<OpBranch> = Vec::new();
    let mut i: usize = 0;
    while i < branches.len()
        invariant
            i <= branches.len(),
            out.len() == i,
            forall|k: int|
                0 <= k < i ==> out[k]@ == (OpBranchView {
                    condition: branches[k]@.condition,
                    body: spec_lower(branches[k]@.body),
                }),
        decreases branches.len() - i,
    {
        let branch = &branches[i];
        let mut body: Vec<Op> = Vec::new();
        markup_as_string_push_operations(&branch.body, &mut body);
        assert(ops_view(body@) =~= spec_lower(markups_view(branch.body@)));
        out.push(OpBranch { condition: duplicate_external(&branch.condition), body });
        i += 1;
    }
    assert(op_branches_view(out@) =~= spec_lower_branches(branches_view(branches@)));
    out
}

/// Puts one operation behind those in `output`.
fn emit(output: &mut Vec<Op>, op: Op)
    ensures
        ops_view(final(output)@) == ops_view(old(output)@) + seq![op@],
{
    output.push(op);
    assert(ops_view(output@) =~= ops_view(old(output)@) + seq![op@]);
}

/// Puts the operations for one node behind those in `output`.
fn lower_node(node: &Markup, output: &mut Vec<Op>)
    ensures
        ops_view(final(output)@) == ops_view(old(output)@) + spec_lower_node(node@),
    decreases node, 1nat,
{
    let ghost before = ops_view(output@);
    match node {
        Markup::LiteralSequence(lits) => {
            emit(output, Op::Push(join_literals(lits)));
        },
        Markup::Tag { tag, attrs, inner } => {
            emit(output, lower_open(tag, attrs));
            match inner {
                Some(children) => {
                    markup_as_string_push_operations(children, output);
                    emit(output, lower_close(tag));
                    assert(ops_view(output@) =~= before + spec_lower_node(node@));
                },
                None => {},
            }
        },
        Markup::AnonBlock(children) => {
            markup_as_string_push_operations(children, output);
        },
        Markup::Slot(slot) => match slot {
            InterpMarkupExpr::Simple(value) => {
                emit(output, Op::PushExpr(duplicate_external(value)));
            },
            InterpMarkupExpr::Match(subject, arms) => {
                emit(output, Op::Match(duplicate_external(subject), lower_arms(arms)));
            },
            InterpMarkupExpr::If { branches, otherwise } => {
                let lowered = lower_branches(branches);
                let last = match otherwise {
                    Some(body) => {
                        let mut ops: Vec<Op> = Vec::new();
                        markup_as_string_push_operations(body, &mut ops);
                        assert(ops_view(ops@) =~= spec_lower(markups_view(body@)));
                        Some(ops)
                    },
                    None => None,
                };
                emit(output, Op::If { branches: lowered, otherwise: last });
            },
            InterpMarkupExpr::For { binder, iterable, body } => {
                let mut ops: Vec<Op> = Vec::new();
                markup_as_string_push_operations(body, &mut ops);
                assert(ops_view(ops@) =~= spec_lower(markups_view(body@)));
                emit(
                    output,
                    Op::For {
                        binder: duplicate_external(binder),
                        iterable: duplicate_external(iterable),
                        body: ops,
                    },
                );
            },
        },
    }
}

/// Lowers the nodes `input` and puts their operations behind those in `output`.
pub fn markup_as_string_push_operations(input: &Vec<Markup>, output: &mut Vec<Op>)
    ensures
        ops_view(final(output)@) == ops_view(old(output)@) + spec_lower(markups_view(input@)),
    decreases input, 2nat,
{
    let ghost before = ops_view(output@);
    let ghost nodes = markups_view(input@);
    let mut i: usize = 0;
    assert(before + spec_lower_from(nodes, 0) =~= before + spec_lower(nodes));
    while i < input.len()
        invariant
            i <= input.len(),
            nodes == markups_view(input@),
            before == ops_view(old(output)@),
            ops_view(output@) + spec_lower_from(nodes, i as int) == before + spec_lower(nodes),
        decreases input.len() - i,
    {
        let ghost so_far = ops_view(output@);
        lower_node(&input[i], output);
        proof {
            assert((so_far + spec_lower_node(nodes[i as int])) + spec_lower_from(nodes, i + 1)
                =~= so_far + (spec_lower_node(nodes[i as int]) + spec_lower_from(nodes, i + 1)));
        }
        i += 1;
    }
    assert(ops_view(output@) + Seq::<OpView>::empty() =~= ops_view(output@));
}

/// The format template of the first `count` pieces: the fixed text with its braces
/// doubled, and `{}` for each placeholder.
pub open spec fn spec_format_string(pieces: Seq<PieceView>, count: int) -> Seq<char>
    decreases count,
{
    if 0 < count <= pieces.len() {
        spec_format_string(pieces, count - 1) + match pieces[count - 1] {
            PieceView::Text(text) => doubled_braces(text),
            PieceView::Arg(_) => seq!['{', '}'],
        }
    } else {
        Seq::empty()
    }
}

/// The format template of a formatted append, for generated code.
pub fn format_string(pieces: &Vec<Piece>) -> (out: String)
    ensures
        out@ == spec_format_string(pieces_view(pieces@), pieces.len() as int),
{
    let ghost all = pieces_view(pieces@);
    let mut out = String::new();
    let mut i: usize = 0;
    while i < pieces.len()
        invariant
            i <= pieces.len(),
            all == pieces_view(pieces@),
            out@ == spec_format_string(all, i as int),
        decreases pieces.len() - i,
    {
        match &pieces[i] {
            Piece::Text(text) => {
                push_doubled(text.as_str(), &mut out);
            },
            Piece::Arg(_) => {
                out.push('{');
                out.push('}');
                assert(out@ =~= spec_format_string(all, i as int) + seq!['{', '}']);
            },
        }
        i += 1;
    }
    out
}

} // verus!
