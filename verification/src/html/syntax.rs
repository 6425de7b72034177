//! The markup tree that the parser builds and the lowering walks.

use crate::token::{tokens_view, Token, TokenView};
use vstd::prelude::*;
use vstd::string::*;

verus! {

/// A tag or attribute name: one word, or words joined by hyphens.
#[derive(Debug, PartialEq, Eq)]
pub enum MarkupId {
    /// A single word.
    Basic(String),
    /// The first word, then the rest of the name: each further hyphen and word as written.
    Complex(String, String),
}

pub enum MarkupIdView {
    Basic(Seq<char>),
    Complex(Seq<char>, Seq<char>),
}

impl MarkupIdView {
    /// The name as it is rendered.
    pub open spec fn text(self) -> Seq<char> {
        match self {
            MarkupIdView::Basic(word) => word,
            MarkupIdView::Complex(word, rest) => word + rest,
        }
    }
}

impl View for MarkupId {
    type V = MarkupIdView;

    open spec fn view(&self) -> MarkupIdView {
        match self {
            MarkupId::Basic(word) => MarkupIdView::Basic(word@),
            MarkupId::Complex(word, rest) => MarkupIdView::Complex(word@, rest@),
        }
    }
}

impl MarkupId {
    /// The name as it is rendered.
    pub fn text(&self) -> (out: String)
        ensures
            out@ == self@.text(),
    {
        match self {
            MarkupId::Basic(word) => word.clone(),
            MarkupId::Complex(word, rest) => {
                let mut out = word.clone();
                out.append(rest.as_str());
                out
            },
        }
    }

    /// A copy of this name.
    pub fn duplicate(&self) -> (out: MarkupId)
        ensures
            out@ == self@,
    {
        match self {
            MarkupId::Basic(word) => MarkupId::Basic(word.clone()),
            MarkupId::Complex(word, rest) => MarkupId::Complex(word.clone(), rest.clone()),
        }
    }
}

/// A literal fragment of the output. Its text was escaped when it was parsed and is
/// never escaped again.
#[derive(Debug, PartialEq, Eq)]
pub enum MarkupLit {
    /// Text to emit as it stands.
    Basic(String),
    /// The digits of a number that followed a minus sign; emitted behind `-`.
    NegativeNumber(String),
}

pub enum MarkupLitView {
    Basic(Seq<char>),
    NegativeNumber(Seq<char>),
}

impl MarkupLitView {
    /// The text that the fragment contributes to the output.
    pub open spec fn text(self) -> Seq<char> {
        match self {
            MarkupLitView::Basic(text) => text,
            MarkupLitView::NegativeNumber(digits) => seq!['-'] + digits,
        }
    }
}

impl View for MarkupLit {
    type V = MarkupLitView;

    open spec fn view(&self) -> MarkupLitView {
        match self {
            MarkupLit::Basic(text) => MarkupLitView::Basic(text@),
            MarkupLit::NegativeNumber(digits) => MarkupLitView::NegativeNumber(digits@),
        }
    }
}

/// The texts of a sequence of literal fragments, joined in order.
pub open spec fn literals_text(lits: Seq<MarkupLitView>) -> Seq<char>
    decreases lits.len(),
{
    if lits.len() == 0 {
        Seq::empty()
    } else {
        literals_text(lits.drop_last()) + lits.last().text()
    }
}

impl MarkupLit {
    /// Appends the fragment's text to `buf`.
    pub fn push_to_string(&self, buf: &mut String)
        ensures
            final(buf)@ == old(buf)@ + self@.text(),
    {
        match self {
            MarkupLit::Basic(text) => {
                buf.append(text.as_str());
            },
            MarkupLit::NegativeNumber(digits) => {
                buf.push('-');
                buf.append(digits.as_str());
                assert(buf@ =~= old(buf)@ + (seq!['-'] + digits@));
            },
        }
    }
}

/// A run of host-language tokens that the compiler carries along without reading it.
#[derive(Debug, PartialEq, Eq)]
pub struct External(pub Vec<Token>);

impl View for External {
    type V = Seq<TokenView>;

    open spec fn view(&self) -> Seq<TokenView> {
        tokens_view(self.0@)
    }
}

/// What an interpolated attribute value is expected to be.
#[derive(Clone, Copy, Debug, PartialEq, Eq, Structural)]
pub enum InterpValueType {
    /// The value itself.
    Direct,
    /// An optional value; an absent one leaves the attribute out.
    Optional,
}

/// The kinds of interpolated attribute.
#[derive(Debug, PartialEq, Eq)]
pub enum InterpValue {
    /// `name[condition]`: the bare name, present while the condition holds.
    Toggle { name: MarkupId },
    /// `name=(value)` or `name=[value]`.
    NameValue { name: MarkupId, wrapper: InterpValueType },
    /// `@(bundle)` or `@[bundle]` on the tag `tag`.
    Spread { tag: MarkupId, wrapper: InterpValueType },
}

pub enum InterpValueView {
    Toggle { name: MarkupIdView },
    NameValue { name: MarkupIdView, wrapper: InterpValueType },
    Spread { tag: MarkupIdView, wrapper: InterpValueType },
}

impl View for InterpValue {
    type V = InterpValueView;

    open spec fn view(&self) -> InterpValueView {
        match self {
            InterpValue::Toggle { name } => InterpValueView::Toggle { name: name@ },
            InterpValue::NameValue { name, wrapper } => InterpValueView::NameValue {
                name: name@,
                wrapper: *wrapper,
            },
            InterpValue::Spread { tag, wrapper } => InterpValueView::Spread {
                tag: tag@,
                wrapper: *wrapper,
            },
        }
    }
}

/// One attribute of a tag.
#[derive(Debug, PartialEq, Eq)]
#[allow(inconsistent_fields)]
pub enum TagAttribute {
    /// A name with a literal value, or a bare name.
    Lit { name: MarkupId, value: Option<MarkupLit> },
    /// An attribute whose text depends on a host value.
    Interpolated { kind: InterpValue, value: External },
}

#[allow(inconsistent_fields)]
pub enum TagAttributeView {
    Lit { name: MarkupIdView, value: Option<MarkupLitView> },
    Interpolated { kind: InterpValueView, value: Seq<TokenView> },
}

impl View for TagAttribute {
    type V = TagAttributeView;

    open spec fn view(&self) -> TagAttributeView {
        match self {
            TagAttribute::Lit { name, value } => TagAttributeView::Lit {
                name: name@,
                value: match value {
                    Some(lit) => Some(lit@),
                    None => None,
                },
            },
            TagAttribute::Interpolated { kind, value } => TagAttributeView::Interpolated {
                kind: kind@,
                value: value@,
            },
        }
    }
}

/// One arm of a `@match` slot.
#[derive(Debug, PartialEq, Eq)]
pub struct Arm {
    pub pattern: External,
    pub body: Vec<Markup>,
}

/// One conditional branch of an `@if` slot.
#[derive(Debug, PartialEq, Eq)]
pub struct Branch {
    pub condition: External,
    pub body: Vec<Markup>,
}

/// A point of the tree that is filled from the host program.
#[derive(Debug, PartialEq, Eq)]
pub enum InterpMarkupExpr {
    /// `(expression)`
    Simple(External),
    /// `@match subject { pattern => { .. } .. }`
    Match(External, Vec<Arm>),
    /// `@if condition { .. } @else if condition { .. } @else { .. }`
    If { branches: Vec<Branch>, otherwise: Option<Vec<Markup>> },
    /// `@for binder in iterable { .. }`
    For { binder: External, iterable: External, body: Vec<Markup> },
}

/// A node of the markup tree.
#[derive(Debug, PartialEq, Eq)]
pub enum Markup {
    /// Adjacent literals.
    LiteralSequence(Vec<MarkupLit>),
    /// A tag; `inner` is `None` for one that closes itself.
    Tag { tag: MarkupId, attrs: Vec<TagAttribute>, inner: Option<Vec<Markup>> },
    /// `{ .. }`: children without a tag around them.
    AnonBlock(Vec<Markup>),
    /// A slot.
    Slot(InterpMarkupExpr),
}

pub struct ArmView {
    pub pattern: Seq<TokenView>,
    pub body: Seq<MarkupView>,
}

pub struct BranchView {
    pub condition: Seq<TokenView>,
    pub body: Seq<MarkupView>,
}

pub enum SlotView {
    Simple(Seq<TokenView>),
    Match(Seq<TokenView>, Seq<ArmView>),
    If { branches: Seq<BranchView>, otherwise: Option<Seq<MarkupView>> },
    For { binder: Seq<TokenView>, iterable: Seq<TokenView>, body: Seq<MarkupView> },
}

pub enum MarkupView {
    LiteralSequence(Seq<MarkupLitView>),
    Tag { tag: MarkupIdView, attrs: Seq<TagAttributeView>, inner: Option<Seq<MarkupView>> },
    AnonBlock(Seq<MarkupView>),
    Slot(SlotView),
}

/// The values of a sequence of literal fragments.
pub open spec fn lits_view(lits: Seq<MarkupLit>) -> Seq<MarkupLitView> {
    Seq::new(lits.len(), |i: int| lits[i]@)
}

/// The values of a sequence of attributes.
pub open spec fn attrs_view(attrs: Seq<TagAttribute>) -> Seq<TagAttributeView> {
    Seq::new(attrs.len(), |i: int| attrs[i]@)
}

/// The values of a sequence of nodes.
pub open spec fn markups_view(nodes: Seq<Markup>) -> Seq<MarkupView>
    decreases nodes, 0nat,
{
    Seq::new(
        nodes.len(),
        |i: int|
            if 0 <= i < nodes.len() {
                markup_view(nodes[i])
            } else {
                MarkupView::AnonBlock(Seq::empty())
            },
    )
}

/// The values of a sequence of match arms.
pub open spec fn arms_view(arms: Seq<Arm>) -> Seq<ArmView>
    decreases arms, 0nat,
{
    Seq::new(
        arms.len(),
        |i: int|
            if 0 <= i < arms.len() {
                arm_view(arms[i])
            } else {
                ArmView { pattern: Seq::empty(), body: Seq::empty() }
            },
    )
}

/// The values of a sequence of conditional branches.
pub open spec fn branches_view(branches: Seq<Branch>) -> Seq<BranchView>
    decreases branches, 0nat,
{
    Seq::new(
        branches.len(),
        |i: int|
            if 0 <= i < branches.len() {
                branch_view(branches[i])
            } else {
                BranchView { condition: Seq::empty(), body: Seq::empty() }
            },
    )
}

pub open spec fn arm_view(arm: Arm) -> ArmView
    decreases arm, 1nat,
{
    ArmView { pattern: arm.pattern@, body: markups_view(arm.body@) }
}

pub open spec fn branch_view(branch: Branch) -> BranchView
    decreases branch, 1nat,
{
    BranchView { condition: branch.condition@, body: markups_view(branch.body@) }
}

pub open spec fn slot_view(slot: InterpMarkupExpr) -> SlotView
    decreases slot, 1nat,
{
    match slot {
        InterpMarkupExpr::Simple(value) => SlotView::Simple(value@),
        InterpMarkupExpr::Match(subject, arms) => SlotView::Match(subject@, arms_view(arms@)),
        InterpMarkupExpr::If { branches, otherwise } => SlotView::If {
            branches: branches_view(branches@),
            otherwise: match otherwise {
                Some(body) => Some(markups_view(body@)),
                None => None,
            },
        },
        InterpMarkupExpr::For { binder, iterable, body } => SlotView::For {
            binder: binder@,
            iterable: iterable@,
            body: markups_view(body@),
        },
    }
}

pub open spec fn markup_view(node: Markup) -> MarkupView
    decreases node, 1nat,
{
    match node {
        Markup::LiteralSequence(lits) => MarkupView::LiteralSequence(lits_view(lits@)),
        Markup::Tag { tag, attrs, inner } => MarkupView::Tag {
            tag: tag@,
            attrs: attrs_view(attrs@),
            inner: match inner {
                Some(body) => Some(markups_view(body@)),
                None => None,
            },
        },
        Markup::AnonBlock(body) => MarkupView::AnonBlock(markups_view(body@)),
        Markup::Slot(slot) => MarkupView::Slot(slot_view(slot)),
    }
}

impl View for Arm {
    type V = ArmView;

    open spec fn view(&self) -> ArmView {
        arm_view(*self)
    }
}

impl View for Branch {
    type V = BranchView;

    open spec fn view(&self) -> BranchView {
        branch_view(*self)
    }
}

impl View for InterpMarkupExpr {
    type V = SlotView;

    open spec fn view(&self) -> SlotView {
        slot_view(*self)
    }
}

impl View for Markup {
    type V = MarkupView;

    open spec fn view(&self) -> MarkupView {
        markup_view(*self)
    }
}

} // verus!
