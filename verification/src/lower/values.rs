//! Values that come out of expression lowering, and what is done with them.

use vstd::prelude::*;

use crate::ast::{BinaryOp, Expr};
use crate::lower::context::LowerCtx;
use crate::lower::state::LowerState;
use crate::mir::{BlockId, LocalId, MirInst, MirInstView, MirValue, Rvalue, RvalueView};
use crate::types::{type_option_view, Type, TypeView};

verus! {

/// An operand with its inferred type, where that is known.
#[derive(Debug)]
pub struct LoweredValue {
    pub value: MirValue,
    pub ty: Option<Type>,
}

/// The mathematical model of a [`LoweredValue`].
pub struct LoweredView {
    pub value: MirValue,
    pub ty: Option<TypeView>,
}

impl View for LoweredValue {
    type V = LoweredView;

    open spec fn view(&self) -> LoweredView {
        LoweredView { value: self.value, ty: type_option_view(self.ty) }
    }
}

pub open spec fn lowered_option_view(value: Option<LoweredValue>) -> Option<LoweredView> {
    match value {
        Some(value) => Some(value@),
        None => None,
    }
}

pub open spec fn rvalue_option_view(value: Option<Rvalue>) -> Option<RvalueView> {
    match value {
        Some(value) => Some(value@),
        None => None,
    }
}

/// What lowering of a construct does next.
#[derive(Debug)]
pub enum Step {
    /// The construct is lowered, or cannot be.
    Done(Option<Rvalue>),
    /// The argument at a position is to be lowered, towards a type if one is
    /// expected.
    Wants { index: usize, expected: Option<Type> },
}

/// The mathematical model of a [`Step`].
pub enum StepView {
    Done(Option<RvalueView>),
    Wants { index: int, expected: Option<TypeView> },
}

impl View for Step {
    type V = StepView;

    open spec fn view(&self) -> StepView {
        match *self {
            Step::Done(value) => StepView::Done(rvalue_option_view(value)),
            Step::Wants { index, expected } => StepView::Wants {
                index: index as int,
                expected: type_option_view(expected),
            },
        }
    }
}

/// The placeholder that stands for a construct with a reported error.
pub open spec fn placeholder() -> Option<RvalueView> {
    Some(RvalueView::ConstInt(0))
}

/// The constant that an operand stands for.
pub open spec fn constant(value: MirValue) -> RvalueView {
    match value {
        MirValue::Unit => RvalueView::ConstInt(0),
        MirValue::Int(number) => RvalueView::ConstInt(number),
        MirValue::Float(bits) => RvalueView::ConstFloat(bits),
        MirValue::Bool(flag) => RvalueView::ConstBool(flag),
        MirValue::Local(local) => RvalueView::Move(local),
    }
}

impl LowerState {
    /// The local that an operand is in, or is put in.
    pub open spec fn localized(self, value: MirValue) -> LocalId {
        match value {
            MirValue::Local(local) => local,
            _ => LocalId(self.next_local),
        }
    }

    pub open spec fn localizing(self, value: MirValue, ty: TypeView) -> LowerState {
        match value {
            MirValue::Local(_) => self,
            _ => self.with_typed_local(ty).assigned(LocalId(self.next_local), constant(value)),
        }
    }
}

impl<'a> LowerCtx<'a> {
    /// Puts an operand that is not in a local into a fresh one.
    pub fn localize(&mut self, value: MirValue, ty: Type) -> (local: LocalId)
        ensures
            local == old(self)@.localized(value),
            final(self)@ == old(self)@.localizing(value, ty@),
    {
        let constant = match value {
            MirValue::Local(local) => {
                return local;
            },
            MirValue::Unit => Rvalue::ConstInt(0),
            MirValue::Int(number) => Rvalue::ConstInt(number),
            MirValue::Float(bits) => Rvalue::ConstFloat(bits),
            MirValue::Bool(flag) => Rvalue::ConstBool(flag),
        };
        let local = self.typed_local(ty);
        self.assign(local, constant);
        local
    }
}

/// Branches over a status number.
impl LowerState {
    /// A fresh flag that says whether a status is `number`.
    pub open spec fn comparing(self, status: LocalId, number: i64) -> LowerState {
        self.with_typed_local(TypeView::Bool).assigned(
            LocalId(self.next_local),
            RvalueView::Binary {
                op: BinaryOp::Eq,
                lhs: MirValue::Local(status),
                rhs: MirValue::Int(number),
            },
        )
    }

    pub open spec fn branching(self, flag: LocalId, then_bb: BlockId, else_bb: BlockId) -> LowerState {
        self.pushed(MirInstView::If { cond: MirValue::Local(flag), then_bb, else_bb })
    }

    /// The end of a branch: its outcome is a variant of an enum.
    pub open spec fn yielding(
        self,
        result: LocalId,
        enum_name: Seq<char>,
        variant_index: u32,
        payload: Option<MirValue>,
        join: BlockId,
    ) -> LowerState {
        self.assigned(
            result,
            RvalueView::EnumConstruct { enum_name, variant_index, payload },
        ).pushed(MirInstView::Goto(join))
    }
}

impl<'a> LowerCtx<'a> {
    /// A fresh flag that says whether a status is `number`.
    pub(crate) fn compare_status(&mut self, status: LocalId, number: i64) -> (flag: LocalId)
        ensures
            flag == LocalId(old(self)@.next_local),
            final(self)@ == old(self)@.comparing(status, number),
    {
        let flag = self.typed_local(Type::Bool);
        self.assign(
            flag,
            Rvalue::Binary {
                op: BinaryOp::Eq,
                lhs: MirValue::Local(status),
                rhs: MirValue::Int(number),
            },
        );
        flag
    }

    pub(crate) fn branch(&mut self, flag: LocalId, then_bb: BlockId, else_bb: BlockId)
        ensures
            final(self)@ == old(self)@.branching(flag, then_bb, else_bb),
    {
        self.push_inst(MirInst::If { cond: MirValue::Local(flag), then_bb, else_bb });
    }

    /// Ends a branch: its outcome is a variant of an enum.
    pub(crate) fn yield_variant(
        &mut self,
        result: LocalId,
        enum_name: &str,
        variant_index: u32,
        payload: Option<MirValue>,
        join: BlockId,
    )
        ensures
            final(self)@ == old(self)@.yielding(result, enum_name@, variant_index, payload, join),
    {
        self.assign(
            result,
            Rvalue::EnumConstruct { enum_name: enum_name.to_owned(), variant_index, payload },
        );
        self.push_inst(MirInst::Goto(join));
    }
}

pub(crate) fn is_ref_expr(expr: &Expr) -> (is_ref: bool)
    ensures
        is_ref == (expr is Ref),
{
    match expr {
        Expr::Ref { .. } => true,
        _ => false,
    }
}

pub(crate) fn is_ref_type(ty: &Type) -> (is_ref: bool)
    ensures
        is_ref == (ty@ is Ref),
{
    match ty {
        Type::Ref(_, _) => true,
        _ => false,
    }
}

} // verus!
