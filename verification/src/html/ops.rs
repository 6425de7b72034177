//! Output operations: what a template is lowered to.
//!
//! An operation appends to one output buffer, or chooses among nested operation
//! sequences by a value of the host program.

use crate::html::syntax::{External, InterpValueType};
use crate::token::TokenView;
use vstd::prelude::*;

verus! {

/// What fills one placeholder of a formatted append.
#[derive(Debug, PartialEq, Eq)]
#[allow(inconsistent_fields)]
pub enum AttrArg {
    /// A space and `name` while `condition` holds, nothing otherwise.
    Toggle { condition: External, name: String },
    /// The escaped text of `value`.
    Escaped { value: External },
    /// A space, `name`, and the escaped text of `value` in quotes behind `=`, where `value`
    /// is present; nothing where it is absent.
    Optional { value: External, name: String },
    /// The attributes that the bundle `value` gives to the tag `tag`; with the wrapper
    /// `Optional`, nothing where the bundle is absent.
    Spread { value: External, tag: String, wrapper: InterpValueType },
}

#[allow(inconsistent_fields)]
pub enum AttrArgView {
    Toggle { condition: Seq<TokenView>, name: Seq<char> },
    Escaped { value: Seq<TokenView> },
    Optional { value: Seq<TokenView>, name: Seq<char> },
    Spread { value: Seq<TokenView>, tag: Seq<char>, wrapper: InterpValueType },
}

impl View for AttrArg {
    type V = AttrArgView;

    open spec fn view(&self) -> AttrArgView {
        match self {
            AttrArg::Toggle { condition, name } => AttrArgView::Toggle {
                condition: condition@,
                name: name@,
            },
            AttrArg::Escaped { value } => AttrArgView::Escaped { value: value@ },
            AttrArg::Optional { value, name } => AttrArgView::Optional {
                value: value@,
                name: name@,
            },
            AttrArg::Spread { value, tag, wrapper } => AttrArgView::Spread {
                value: value@,
                tag: tag@,
                wrapper: *wrapper,
            },
        }
    }
}

/// One piece of the template of a formatted append: fixed text, or a placeholder with
/// what fills it.
#[derive(Debug, PartialEq, Eq)]
pub enum Piece {
    Text(String),
    Arg(AttrArg),
}

pub enum PieceView {
    Text(Seq<char>),
    Arg(AttrArgView),
}

impl View for Piece {
    type V = PieceView;

    open spec fn view(&self) -> PieceView {
        match self {
            Piece::Text(text) => PieceView::Text(text@),
            Piece::Arg(arg) => PieceView::Arg(arg@),
        }
    }
}

/// The values of a sequence of pieces.
pub open spec fn pieces_view(pieces: Seq<Piece>) -> Seq<PieceView> {
    Seq::new(pieces.len(), |i: int| pieces[i]@)
}

/// One arm of a lowered `@match`.
#[derive(Debug, PartialEq, Eq)]
pub struct OpArm {
    pub pattern: External,
    pub body: Vec<Op>,
}

/// One conditional branch of a lowered `@if`.
#[derive(Debug, PartialEq, Eq)]
pub struct OpBranch {
    pub condition: External,
    pub body: Vec<Op>,
}

/// One output operation.
#[derive(Debug, PartialEq, Eq)]
pub enum Op {
    /// Append fixed text.
    Push(String),
    /// Append a template with its placeholders filled.
    Format(Vec<Piece>),
    /// Append the escaped text of a host expression.
    PushExpr(External),
    /// Run the operations of the arm that the host's match on the subject selects.
    Match(External, Vec<OpArm>),
    /// Run the operations of the first branch whose condition holds, or those of
    /// `otherwise`.
    If { branches: Vec<OpBranch>, otherwise: Option<Vec<Op>> },
    /// Run the operations once for each item of the iterable.
    For { binder: External, iterable: External, body: Vec<Op> },
}

pub struct OpArmView {
    pub pattern: Seq<TokenView>,
    pub body: Seq<OpView>,
}

pub struct OpBranchView {
    pub condition: Seq<TokenView>,
    pub body: Seq<OpView>,
}

pub enum OpView {
    Push(Seq<char>),
    Format(Seq<PieceView>),
    PushExpr(Seq<TokenView>),
    Match(Seq<TokenView>, Seq<OpArmView>),
    If { branches: Seq<OpBranchView>, otherwise: Option<Seq<OpView>> },
    For { binder: Seq<TokenView>, iterable: Seq<TokenView>, body: Seq<OpView> },
}

/// The values of a sequence of operations.
pub open spec fn ops_view(ops: Seq<Op>) -> Seq<OpView>
    decreases ops, 0nat,
{
    Seq::new(
        ops.len(),
        |i: int|
            if 0 <= i < ops.len() {
                op_view(ops[i])
            } else {
                OpView::Push(Seq::empty())
            },
    )
}

/// The values of a sequence of lowered arms.
pub open spec fn op_arms_view(arms: Seq<OpArm>) -> Seq<OpArmView>
    decreases arms, 0nat,
{
    Seq::new(
        arms.len(),
        |i: int|
            if 0 <= i < arms.len() {
                op_arm_view(arms[i])
            } else {
                OpArmView { pattern: Seq::empty(), body: Seq::empty() }
            },
    )
}

/// The values of a sequence of lowered branches.
pub open spec fn op_branches_view(branches: Seq<OpBranch>) -> Seq<OpBranchView>
    decreases branches, 0nat,
{
    Seq::new(
        branches.len(),
        |i: int|
            if 0 <= i < branches.len() {
                op_branch_view(branches[i])
            } else {
                OpBranchView { condition: Seq::empty(), body: Seq::empty() }
            },
    )
}

pub open spec fn op_arm_view(arm: OpArm) -> OpArmView
    decreases arm, 1nat,
{
    OpArmView { pattern: arm.pattern@, body: ops_view(arm.body@) }
}

pub open spec fn op_branch_view(branch: OpBranch) -> OpBranchView
    decreases branch, 1nat,
{
    OpBranchView { condition: branch.condition@, body: ops_view(branch.body@) }
}

pub open spec fn op_view(op: Op) -> OpView
    decreases op, 1nat,
{
    match op {
        Op::Push(text) => OpView::Push(text@),
        Op::Format(pieces) => OpView::Format(pieces_view(pieces@)),
        Op::PushExpr(value) => OpView::PushExpr(value@),
        Op::Match(subject, arms) => OpView::Match(subject@, op_arms_view(arms@)),
        Op::If { branches, otherwise } => OpView::If {
            branches: op_branches_view(branches@),
            otherwise: match otherwise {
                Some(body) => Some(ops_view(body@)),
                None => None,
            },
        },
        Op::For { binder, iterable, body } => OpView::For {
            binder: binder@,
            iterable: iterable@,
            body: ops_view(body@),
        },
    }
}

impl View for OpArm {
    type V = OpArmView;

    open spec fn view(&self) -> OpArmView {
        op_arm_view(*self)
    }
}

impl View for OpBranch {
    type V = OpBranchView;

    open spec fn view(&self) -> OpBranchView {
        op_branch_view(*self)
    }
}

impl View for Op {
    type V = OpView;

    open spec fn view(&self) -> OpView {
        op_view(*self)
    }
}

} // verus!
