//! Atomic cells. Every operation is sequentially consistent: there is no
//! ordering argument in the source language.

use vstd::prelude::*;

use crate::ast::Expr;
use crate::atomic::{AtomicOrdering, AtomicRmwOp, AtomicScalar};
use crate::diag::Span;
use crate::lower::context::LowerCtx;
use crate::lower::state::LowerState;
use crate::lower::values::{placeholder, Step, StepView};
use crate::mir::{LocalId, MirValue, Rvalue, RvalueView};
use crate::table::value_of;
use crate::text::{concat2, concat3, concat4, concat5, decimal, decimal_text, same_text};
use crate::types::{type_option_view, Type, TypeView};

verus! {

/// The type of the value in an atomic cell.
pub open spec fn scalar_value(scalar: AtomicScalar) -> TypeView {
    match scalar {
        AtomicScalar::Bool => TypeView::Bool,
        AtomicScalar::I32 => TypeView::I32,
        AtomicScalar::U32 => TypeView::U32,
        AtomicScalar::I64 => TypeView::I64,
        AtomicScalar::U64 => TypeView::U64,
        AtomicScalar::Usize => TypeView::Usize,
    }
}

pub fn scalar_type(scalar: AtomicScalar) -> (ty: Type)
    ensures
        ty@ == scalar_value(scalar),
{
    match scalar {
        AtomicScalar::Bool => Type::Bool,
        AtomicScalar::I32 => Type::I32,
        AtomicScalar::U32 => Type::U32,
        AtomicScalar::I64 => Type::I64,
        AtomicScalar::U64 => Type::U64,
        AtomicScalar::Usize => Type::Usize,
    }
}

/// The cell that a static constructor makes.
pub open spec fn constructed_scalar(name: Seq<char>) -> Option<AtomicScalar> {
    if name == "AtomicBool::new"@ {
        Some(AtomicScalar::Bool)
    } else if name == "AtomicI32::new"@ {
        Some(AtomicScalar::I32)
    } else if name == "AtomicU32::new"@ {
        Some(AtomicScalar::U32)
    } else if name == "AtomicI64::new"@ {
        Some(AtomicScalar::I64)
    } else if name == "AtomicU64::new"@ {
        Some(AtomicScalar::U64)
    } else if name == "AtomicUsize::new"@ {
        Some(AtomicScalar::Usize)
    } else {
        None
    }
}

pub fn constructor_scalar(name: &str) -> (scalar: Option<AtomicScalar>)
    ensures
        scalar == constructed_scalar(name@),
{
    if same_text(name, "AtomicBool::new") {
        Some(AtomicScalar::Bool)
    } else if same_text(name, "AtomicI32::new") {
        Some(AtomicScalar::I32)
    } else if same_text(name, "AtomicU32::new") {
        Some(AtomicScalar::U32)
    } else if same_text(name, "AtomicI64::new") {
        Some(AtomicScalar::I64)
    } else if same_text(name, "AtomicU64::new") {
        Some(AtomicScalar::U64)
    } else if same_text(name, "AtomicUsize::new") {
        Some(AtomicScalar::Usize)
    } else {
        None
    }
}

/// The operations of atomic cells.
#[derive(Debug, Clone, Copy, PartialEq, Eq, Structural)]
pub enum AtomicMethod {
    Load,
    Store,
    Swap,
    FetchAdd,
    FetchSub,
    CompareExchange,
    IsLockFree,
}

impl AtomicMethod {
    /// The operation of that name.
    pub open spec fn named(name: Seq<char>) -> Option<AtomicMethod> {
        if name == "load"@ {
            Some(AtomicMethod::Load)
        } else if name == "store"@ {
            Some(AtomicMethod::Store)
        } else if name == "swap"@ {
            Some(AtomicMethod::Swap)
        } else if name == "fetch_add"@ {
            Some(AtomicMethod::FetchAdd)
        } else if name == "fetch_sub"@ {
            Some(AtomicMethod::FetchSub)
        } else if name == "compare_exchange"@ {
            Some(AtomicMethod::CompareExchange)
        } else if name == "is_lock_free"@ {
            Some(AtomicMethod::IsLockFree)
        } else {
            None
        }
    }

    /// How many values the operation takes.
    pub open spec fn value_count(self) -> nat {
        match self {
            AtomicMethod::Load | AtomicMethod::IsLockFree => 0,
            AtomicMethod::CompareExchange => 2,
            _ => 1,
        }
    }

    pub fn from_name(name: &str) -> (method: Option<AtomicMethod>)
        ensures
            method == AtomicMethod::named(name@),
    {
        if same_text(name, "load") {
            Some(AtomicMethod::Load)
        } else if same_text(name, "store") {
            Some(AtomicMethod::Store)
        } else if same_text(name, "swap") {
            Some(AtomicMethod::Swap)
        } else if same_text(name, "fetch_add") {
            Some(AtomicMethod::FetchAdd)
        } else if same_text(name, "fetch_sub") {
            Some(AtomicMethod::FetchSub)
        } else if same_text(name, "compare_exchange") {
            Some(AtomicMethod::CompareExchange)
        } else if same_text(name, "is_lock_free") {
            Some(AtomicMethod::IsLockFree)
        } else {
            None
        }
    }

    pub fn arity(self) -> (count: usize)
        ensures
            count == self.value_count(),
    {
        match self {
            AtomicMethod::Load | AtomicMethod::IsLockFree => 0,
            AtomicMethod::CompareExchange => 2,
            _ => 1,
        }
    }

    /// The operation on a cell with the given values.
    pub open spec fn operation(
        self,
        atomic: LocalId,
        scalar: AtomicScalar,
        values: Seq<MirValue>,
    ) -> RvalueView {
        let ordering = AtomicOrdering::SeqCst;
        match self {
            AtomicMethod::Load => RvalueView::AtomicLoad { atomic, scalar, ordering },
            AtomicMethod::Store => RvalueView::AtomicStore {
                atomic,
                value: values[0],
                scalar,
                ordering,
            },
            AtomicMethod::Swap => RvalueView::AtomicRmw {
                atomic,
                value: values[0],
                scalar,
                op: AtomicRmwOp::Swap,
                ordering,
            },
            AtomicMethod::FetchAdd => RvalueView::AtomicRmw {
                atomic,
                value: values[0],
                scalar,
                op: AtomicRmwOp::Add,
                ordering,
            },
            AtomicMethod::FetchSub => RvalueView::AtomicRmw {
                atomic,
                value: values[0],
                scalar,
                op: AtomicRmwOp::Sub,
                ordering,
            },
            AtomicMethod::CompareExchange => RvalueView::AtomicCompareExchange {
                atomic,
                expected: values[0],
                desired: values[1],
                scalar,
                success: ordering,
                failure: ordering,
            },
            AtomicMethod::IsLockFree => RvalueView::AtomicIsLockFree { scalar },
        }
    }

    /// The type of the operation's result.
    pub open spec fn result_type(self, scalar: AtomicScalar) -> TypeView {
        match self {
            AtomicMethod::Store => TypeView::Void,
            AtomicMethod::IsLockFree => TypeView::Bool,
            _ => scalar_value(scalar),
        }
    }
}

/// What a method call on an atomic cell does next.
#[derive(Debug)]
pub enum AtomicStep {
    /// The call is not one, or is invalid and reported.
    Refused,
    /// The address of the field that holds the cell is wanted.
    WantsReference,
    /// The values of the arguments are wanted, each lowered towards the type of
    /// the value in the cell.
    WantsValues { atomic: LocalId, scalar: AtomicScalar, method: AtomicMethod },
}

/// The text of an arity error.
pub open spec fn arity_text(method: Seq<char>, expected: nat, actual: nat) -> Seq<char> {
    "atomic ."@ + method + "() expects "@ + decimal_text(expected) + " argument"@ + (if expected == 1 {
        ""@
    } else {
        "s"@
    }) + " but got "@ + decimal_text(actual)
}

impl LowerState {
    /// The cell that a local is, or refers to.
    pub open spec fn atomic_cell(self, local: LocalId) -> Option<AtomicScalar> {
        match self.local_type(local) {
            Some(TypeView::Atomic(scalar)) => Some(scalar),
            Some(TypeView::Ref(inner, _)) => match *inner {
                TypeView::Atomic(scalar) => Some(scalar),
                _ => None,
            },
            _ => None,
        }
    }

    /// What an operation on a local asks for.
    pub open spec fn using_atomic(
        self,
        local: LocalId,
        method: Seq<char>,
        args: nat,
        span: Span,
    ) -> (LowerState, AtomicStep) {
        match (self.atomic_cell(local), AtomicMethod::named(method)) {
            (Some(scalar), Some(operation)) => if (operation == AtomicMethod::FetchAdd || operation
                == AtomicMethod::FetchSub) && scalar == AtomicScalar::Bool {
                (
                    self.error(
                        scalar.name() + " does not support ."@ + method + "()"@,
                        Some(span),
                    ),
                    AtomicStep::Refused,
                )
            } else if args != operation.value_count() {
                (
                    self.error(arity_text(method, operation.value_count(), args), Some(span)),
                    AtomicStep::Refused,
                )
            } else {
                (self, AtomicStep::WantsValues { atomic: local, scalar, method: operation })
            },
            _ => (self, AtomicStep::Refused),
        }
    }

    /// What a method call on an atomic cell asks for first.
    #[verifier::opaque]
    pub open spec fn beginning_atomic(
        self,
        receiver: Expr,
        method: Seq<char>,
        args: nat,
        span: Span,
    ) -> (LowerState, AtomicStep) {
        match receiver {
            Expr::Ident(name, _) => match value_of(self.bindings, name.0@) {
                None => (
                    self.error("unknown identifier '"@ + name.0@ + "'"@, Some(span)),
                    AtomicStep::Refused,
                ),
                Some(local) => if self.is_available(local) {
                    self.using_atomic(local, method, args, span)
                } else {
                    (self.checking_available(local, Some(span)), AtomicStep::Refused)
                },
            },
            Expr::FieldAccess { .. } => (self, AtomicStep::WantsReference),
            _ => (
                self.error(
                    "atomic methods require an atomic local, reference, or aggregate field"@,
                    Some(span),
                ),
                AtomicStep::Refused,
            ),
        }
    }

    /// The address of a field in a fresh local.
    pub open spec fn referring(self, reference: RvalueView, ty: Option<TypeView>) -> LowerState {
        let local = LocalId(self.next_local);
        let fresh = self.with_fresh_local(None);
        match ty {
            Some(ty) => fresh.with_type(local, ty),
            None => fresh,
        }.assigned(local, reference)
    }

    /// A value in a fresh local of the given type.
    pub open spec fn resulting(self, ty: TypeView, value: RvalueView) -> (LowerState, RvalueView) {
        let result = LocalId(self.next_local);
        (self.with_typed_local(ty).assigned(result, value), RvalueView::Move(result))
    }

    /// What an atomic constructor asks for first.
    pub open spec fn beginning_atomic_new(self, scalar: AtomicScalar, args: nat, span: Span) -> (
        LowerState,
        StepView,
    ) {
        if args != 1 {
            (
                self.error(scalar.name() + " expects exactly one initial value"@, Some(span)),
                StepView::Done(placeholder()),
            )
        } else {
            (self, StepView::Wants { index: 0, expected: Some(scalar_value(scalar)) })
        }
    }
}

impl<'a> LowerCtx<'a> {
    /// Starts an atomic constructor.
    pub fn begin_atomic_constructor(&mut self, scalar: AtomicScalar, args: &Vec<Expr>, span: Span) -> (step:
        Step)
        ensures
            (final(self)@, step@) == old(self)@.beginning_atomic_new(scalar, args@.len(), span),
    {
        if args.len() != 1 {
            let message = concat2(scalar.source_name(), " expects exactly one initial value");
            self.error(message.as_str(), Some(span));
            return Step::Done(Some(Rvalue::ConstInt(0)));
        }
        Step::Wants { index: 0, expected: Some(scalar_type(scalar)) }
    }

    /// Finishes an atomic constructor with the lowered initial value.
    pub fn lower_atomic_constructor(&mut self, scalar: AtomicScalar, value: MirValue) -> (result: Rvalue)
        ensures
            (final(self)@, result@) == old(self)@.resulting(
                TypeView::Atomic(scalar),
                RvalueView::AtomicNew { value, scalar },
            ),
    {
        self.assign_result(Type::Atomic(scalar), Rvalue::AtomicNew { value, scalar })
    }

    fn assign_result(&mut self, ty: Type, value: Rvalue) -> (result: Rvalue)
        ensures
            (final(self)@, result@) == old(self)@.resulting(ty@, value@),
    {
        let result = self.typed_local(ty);
        self.assign(result, value);
        Rvalue::Move(result)
    }

    fn atomic_cell(&self, local: LocalId) -> (scalar: Option<AtomicScalar>)
        ensures
            scalar == self@.atomic_cell(local),
    {
        match self.local_ty(local) {
            Some(ty) => match ty {
                Type::Atomic(scalar) => Some(*scalar),
                Type::Ref(inner, _) => {
                    let target: &Type = inner;
                    assert(*(ty@->Ref_0) == target@);
                    match target {
                        Type::Atomic(scalar) => Some(*scalar),
                        _ => None,
                    }
                },
                _ => None,
            },
            None => None,
        }
    }

    fn use_atomic(&mut self, local: LocalId, method: &str, args: usize, span: Span) -> (step:
        AtomicStep)
        ensures
            (final(self)@, step) == old(self)@.using_atomic(local, method@, args as nat, span),
    {
        let scalar = match self.atomic_cell(local) {
            Some(scalar) => scalar,
            None => {
                return AtomicStep::Refused;
            },
        };
        let operation = match AtomicMethod::from_name(method) {
            Some(operation) => operation,
            None => {
                return AtomicStep::Refused;
            },
        };
        if (operation == AtomicMethod::FetchAdd || operation == AtomicMethod::FetchSub)
            && !scalar.is_integer() {
            let message = concat4(scalar.source_name(), " does not support .", method, "()");
            self.error(message.as_str(), Some(span));
            return AtomicStep::Refused;
        }
        let expected: usize = operation.arity();
        if args != expected {
            let plural = if expected == 1 {
                ""
            } else {
                "s"
            };
            let head = concat5(
                "atomic .",
                method,
                "() expects ",
                decimal(expected as u64).as_str(),
                " argument",
            );
            let message = concat4(
                head.as_str(),
                plural,
                " but got ",
                decimal(args as u64).as_str(),
            );
            self.error(message.as_str(), Some(span));
            return AtomicStep::Refused;
        }
        AtomicStep::WantsValues { atomic: local, scalar, method: operation }
    }

    /// Starts a method call on an atomic cell.
    pub fn begin_atomic_method(
        &mut self,
        receiver: &Expr,
        method: &str,
        args: &Vec<Expr>,
        span: Span,
    ) -> (step: AtomicStep)
        ensures
            (final(self)@, step) == old(self)@.beginning_atomic(
                *receiver,
                method@,
                args@.len(),
                span,
            ),
    {
        proof {
            reveal(LowerState::beginning_atomic);
        }
        match receiver {
            Expr::Ident(name, _) => match self.bound_local(name.0.as_str()) {
                Some(local) => {
                    if !self.check_local_available(local, Some(span)) {
                        return AtomicStep::Refused;
                    }
                    self.use_atomic(local, method, args.len(), span)
                },
                None => {
                    let message = concat3("unknown identifier '", name.0.as_str(), "'");
                    self.error(message.as_str(), Some(span));
                    AtomicStep::Refused
                },
            },
            Expr::FieldAccess { .. } => AtomicStep::WantsReference,
            _ => {
                self.error(
                    "atomic methods require an atomic local, reference, or aggregate field",
                    Some(span),
                );
                AtomicStep::Refused
            },
        }
    }

    /// Goes on with the address of the field that holds the cell, and its type.
    pub fn supply_atomic_reference(
        &mut self,
        reference: Option<(Rvalue, Option<Type>)>,
        method: &str,
        args: &Vec<Expr>,
        span: Span,
    ) -> (step: AtomicStep)
        ensures
            match reference {
                Some((value, ty)) => (final(self)@, step) == old(self)@.referring(
                    value@,
                    type_option_view(ty),
                ).using_atomic(
                    LocalId(old(self)@.next_local),
                    method@,
                    args@.len(),
                    span,
                ),
                None => final(self)@ == old(self)@ && step == AtomicStep::Refused,
            },
    {
        let (value, ty) = match reference {
            Some(found) => found,
            None => {
                return AtomicStep::Refused;
            },
        };
        let local = self.fresh_local(None);
        match ty {
            Some(ty) => self.set_type(local, ty),
            None => {},
        }
        self.assign(local, value);
        self.use_atomic(local, method, args.len(), span)
    }

    /// Finishes an operation on an atomic cell with the lowered values.
    pub fn lower_atomic_method(
        &mut self,
        atomic: LocalId,
        scalar: AtomicScalar,
        method: AtomicMethod,
        values: &Vec<MirValue>,
    ) -> (result: Rvalue)
        requires
            values@.len() == method.value_count(),
        ensures
            (final(self)@, result@) == old(self)@.resulting(
                method.result_type(scalar),
                method.operation(atomic, scalar, values@),
            ),
    {
        let ordering = AtomicOrdering::SeqCst;
        match method {
            AtomicMethod::Load => self.assign_result(
                scalar_type(scalar),
                Rvalue::AtomicLoad { atomic, scalar, ordering },
            ),
            AtomicMethod::Store => self.assign_result(
                Type::Void,
                Rvalue::AtomicStore { atomic, value: values[0], scalar, ordering },
            ),
            AtomicMethod::Swap => self.assign_result(
                scalar_type(scalar),
                Rvalue::AtomicRmw {
                    atomic,
                    value: values[0],
                    scalar,
                    op: AtomicRmwOp::Swap,
                    ordering,
                },
            ),
            AtomicMethod::FetchAdd => self.assign_result(
                scalar_type(scalar),
                Rvalue::AtomicRmw {
                    atomic,
                    value: values[0],
                    scalar,
                    op: AtomicRmwOp::Add,
                    ordering,
                },
            ),
            AtomicMethod::FetchSub => self.assign_result(
                scalar_type(scalar),
                Rvalue::AtomicRmw {
                    atomic,
                    value: values[0],
                    scalar,
                    op: AtomicRmwOp::Sub,
                    ordering,
                },
            ),
            AtomicMethod::CompareExchange => self.assign_result(
                scalar_type(scalar),
                Rvalue::AtomicCompareExchange {
                    atomic,
                    expected: values[0],
                    desired: values[1],
                    scalar,
                    success: ordering,
                    failure: ordering,
                },
            ),
            AtomicMethod::IsLockFree => self.assign_result(
                Type::Bool,
                Rvalue::AtomicIsLockFree { scalar },
            ),
        }
    }
}

} // verus!
