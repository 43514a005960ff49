//! Calls: argument checks, callable values and named functions.

use std::collections::HashSet;
use vstd::prelude::*;

use crate::ast::Expr;
use crate::diag::Span;
use crate::lower::context::LowerCtx;
use crate::lower::kinds::{spelled, type_label};
use crate::lower::spsc::{is_unit, is_unit_type};
use crate::lower::state::{is_fn_mut, EnumCtorInfo, FnSig, LocalState, LowerState};
use crate::lower::values::{lowered_option_view, rvalue_option_view, LoweredValue, LoweredView};
use crate::mir::{LocalId, MirValue, Rvalue, RvalueView};
use crate::table::value_of;
use crate::text::{concat3, concat4, concat5, concat7, decimal, decimal_text, same_text};
use crate::types::{
    same_type, type_option_view, type_ref_view, types_view, BorrowedCallableKind, Type, TypeView,
};

verus! {

broadcast use vstd::std_specs::hash::group_hash_axioms;

/// Whether a value of type `actual` can stand where `expected` is wanted.
pub open spec fn compatible(actual: TypeView, expected: TypeView) -> bool
    decreases actual, 0nat,
{
    ||| actual == expected
    ||| actual is Param || expected is Param
    ||| is_unit(actual) && is_unit(expected)
    ||| actual is Str && expected is String
    ||| actual is String && expected is Str
    ||| match (actual, expected) {
        (
            TypeView::Function { params, ret },
            TypeView::Function { params: wanted, ret: wanted_ret },
        ) => all_compatible(params, wanted) && compatible(*ret, *wanted_ret),
        (
            TypeView::BorrowedFunction { kind, params, ret },
            TypeView::BorrowedFunction { kind: wanted_kind, params: wanted, ret: wanted_ret },
        ) => (kind == wanted_kind || kind == BorrowedCallableKind::Fn) && all_compatible(
            params,
            wanted,
        ) && compatible(*ret, *wanted_ret),
        (
            TypeView::Function { params, ret },
            TypeView::BorrowedFunction { params: wanted, ret: wanted_ret, .. },
        ) => all_compatible(params, wanted) && compatible(*ret, *wanted_ret),
        (TypeView::Ref(inner, _), _) => *inner == expected,
        (_, TypeView::Ref(inner, _)) => actual == *inner,
        _ => false,
    }
}

/// Whether two lists of types are compatible one by one.
pub open spec fn all_compatible(actual: Seq<TypeView>, expected: Seq<TypeView>) -> bool
    decreases actual, 0nat,
{
    actual.len() == expected.len() && forall|i: int|
        0 <= i < actual.len() ==> compatible(#[trigger] actual[i], expected[i])
}

pub fn call_types_compatible(actual: &Type, expected: &Type) -> (fits: bool)
    ensures
        fits == compatible(actual@, expected@),
    decreases actual, 0nat,
{
    if same_type(actual, expected) {
        return true;
    }
    match (actual, expected) {
        (Type::Param(_), _) => {
            return true;
        },
        (_, Type::Param(_)) => {
            return true;
        },
        (Type::Str, Type::String) => {
            return true;
        },
        (Type::String, Type::Str) => {
            return true;
        },
        _ => {},
    }
    if is_unit_type(actual) && is_unit_type(expected) {
        return true;
    }
    match (actual, expected) {
        (Type::Function { params, ret }, Type::Function { params: wanted, ret: wanted_ret }) => {
            let given: &Type = ret;
            let asked: &Type = wanted_ret;
            assert(*(actual@->Function_ret) == given@);
            assert(*(expected@->Function_ret) == asked@);
            call_lists_compatible(params, wanted) && call_types_compatible(given, asked)
        },
        (
            Type::BorrowedFunction { kind, params, ret },
            Type::BorrowedFunction { kind: wanted_kind, params: wanted, ret: wanted_ret },
        ) => {
            let given: &Type = ret;
            let asked: &Type = wanted_ret;
            assert(*(actual@->BorrowedFunction_ret) == given@);
            assert(*(expected@->BorrowedFunction_ret) == asked@);
            (*kind == *wanted_kind || *kind == BorrowedCallableKind::Fn) && call_lists_compatible(
                params,
                wanted,
            ) && call_types_compatible(given, asked)
        },
        (
            Type::Function { params, ret },
            Type::BorrowedFunction { params: wanted, ret: wanted_ret, .. },
        ) => {
            let given: &Type = ret;
            let asked: &Type = wanted_ret;
            assert(*(actual@->Function_ret) == given@);
            assert(*(expected@->BorrowedFunction_ret) == asked@);
            call_lists_compatible(params, wanted) && call_types_compatible(given, asked)
        },
        (Type::Ref(inner, _), _) => {
            let target: &Type = inner;
            assert(*(actual@->Ref_0) == target@);
            same_type(target, expected)
        },
        (_, Type::Ref(inner, _)) => {
            let target: &Type = inner;
            assert(*(expected@->Ref_0) == target@);
            same_type(actual, target)
        },
        _ => false,
    }
}

fn call_lists_compatible(actual: &Vec<Type>, expected: &Vec<Type>) -> (fits: bool)
    ensures
        fits == all_compatible(types_view(actual@), types_view(expected@)),
    decreases actual, 0nat,
{
    let ghost given = types_view(actual@);
    let ghost asked = types_view(expected@);
    if actual.len() != expected.len() {
        assert(given.len() != asked.len());
        return false;
    }
    let mut i: usize = 0;
    while i < actual.len()
        invariant
            i <= actual.len(),
            given == types_view(actual@),
            asked == types_view(expected@),
            given.len() == actual.len(),
            asked.len() == expected.len(),
            actual.len() == expected.len(),
            forall|j: int| 0 <= j < i ==> compatible(#[trigger] given[j], asked[j]),
        decreases actual.len() - i,
    {
        assert(given[i as int] == actual@[i as int]@);
        assert(asked[i as int] == expected@[i as int]@);
        if !call_types_compatible(&actual[i], &expected[i]) {
            assert(!compatible(given[i as int], asked[i as int]));
            return false;
        }
        i += 1;
    }
    true
}

/// Why an argument does not fit its parameter.
pub open spec fn argument_problem(
    actual: Option<TypeView>,
    expected: TypeView,
    index: nat,
    callee: Seq<char>,
) -> Option<Seq<char>> {
    match actual {
        None => Some(
            "cannot infer type of argument "@ + decimal_text(index + 1) + " in call to '"@ + callee
                + "'"@,
        ),
        Some(ty) => if compatible(ty, expected) {
            None
        } else {
            Some(
                "argument "@ + decimal_text(index + 1) + " to '"@ + callee + "' has type '"@
                    + spelled(ty) + "', expected '"@ + spelled(expected) + "'"@,
            )
        },
    }
}

impl LowerState {
    /// The state after an argument was handed to a callee, and whether it could
    /// be. A reference parameter only needs a readable argument; others take it.
    pub open spec fn handing_over(self, value: MirValue, span: Span, by_reference: bool) -> (
        LowerState,
        bool,
    ) {
        match value {
            MirValue::Local(local) => if self.state_of(local) == Some(LocalState::Moved) {
                (self, true)
            } else if by_reference {
                (self.checking_available(local, Some(span)), self.is_available(local))
            } else if !self.is_consumable(local) {
                (self.consuming(local, Some(span)), false)
            } else {
                let taken = self.consuming(local, Some(span));
                if taken.state_of(local) == Some(LocalState::Initialized) && (taken.local_type(local)
                    matches Some(ty) && (ty is Named || ty is App)) {
                    (taken.with_state(local, LocalState::Moved), true)
                } else {
                    (taken, true)
                }
            },
            _ => (self, true),
        }
    }
}

/// Whether a parameter takes a reference.
pub open spec fn takes_reference(expected: Option<TypeView>) -> bool {
    expected matches Some(ty) && ty is Ref
}

fn expects_reference(expected: Option<&Type>) -> (by_reference: bool)
    ensures
        by_reference == takes_reference(type_ref_view(expected)),
{
    match expected {
        Some(ty) => match ty {
            Type::Ref(_, _) => true,
            _ => false,
        },
        None => false,
    }
}

fn expects_fn_mut(expected: Option<&Type>) -> (exclusive: bool)
    ensures
        exclusive == is_fn_mut(type_ref_view(expected)),
{
    match expected {
        Some(ty) => match ty {
            Type::BorrowedFunction { kind: BorrowedCallableKind::FnMut, .. } => true,
            _ => false,
        },
        None => false,
    }
}

/// The temporary that a reference argument was put in.
pub open spec fn argument_temporary(by_ref_expr: bool, value: MirValue) -> Option<LocalId> {
    match value {
        MirValue::Local(local) => if by_ref_expr {
            Some(local)
        } else {
            None
        },
        _ => None,
    }
}

pub fn temporary_call_loan(arg: &Expr, value: &MirValue) -> (local: Option<LocalId>)
    ensures
        local == argument_temporary(*arg is Ref, *value),
{
    match arg {
        Expr::Ref { .. } => match value {
            MirValue::Local(local) => Some(*local),
            _ => None,
        },
        _ => None,
    }
}

impl<'a> LowerCtx<'a> {
    /// Whether an argument fits its parameter. The reason why not is reported.
    pub fn validate_call_argument(
        &mut self,
        actual: Option<&Type>,
        expected: &Type,
        index: usize,
        callee_name: &str,
        span: Span,
    ) -> (valid: bool)
        requires
            index < usize::MAX,
        ensures
            valid == argument_problem(
                type_ref_view(actual),
                expected@,
                index as nat,
                callee_name@,
            ) is None,
            final(self)@ == (match argument_problem(
                type_ref_view(actual),
                expected@,
                index as nat,
                callee_name@,
            ) {
                Some(problem) => old(self)@.error(problem, Some(span)),
                None => old(self)@,
            }),
    {
        let number = decimal((index + 1) as u64);
        let actual = match actual {
            Some(actual) => actual,
            None => {
                let message = concat5(
                    "cannot infer type of argument ",
                    number.as_str(),
                    " in call to '",
                    callee_name,
                    "'",
                );
                self.error(message.as_str(), Some(span));
                return false;
            },
        };
        if call_types_compatible(actual, expected) {
            return true;
        }
        let head = concat5("argument ", number.as_str(), " to '", callee_name, "' has type '");
        let message = concat5(
            head.as_str(),
            type_label(actual).as_str(),
            "', expected '",
            type_label(expected).as_str(),
            "'",
        );
        self.error(message.as_str(), Some(span));
        false
    }

    /// Hands an argument to a callee. The reason why it cannot be is reported.
    pub fn consume_call_local(&mut self, value: &MirValue, span: Span, expected: Option<&Type>) -> (handed:
        bool)
        ensures
            (final(self)@, handed) == old(self)@.handing_over(
                *value,
                span,
                takes_reference(type_ref_view(expected)),
            ),
    {
        let local = match value {
            MirValue::Local(local) => *local,
            _ => {
                return true;
            },
        };
        if self.is_in_state(local, LocalState::Moved) {
            return true;
        }
        if expects_reference(expected) {
            return self.check_local_available(local, Some(span));
        }
        if !self.consume_local(local, Some(span)) {
            return false;
        }
        if self.is_in_state(local, LocalState::Initialized) {
            let by_value = match self.local_ty(local) {
                Some(ty) => match ty {
                    Type::Named(_) | Type::App { .. } => true,
                    _ => false,
                },
                None => false,
            };
            if by_value {
                self.set_state(local, LocalState::Moved);
            }
        }
        true
    }
}

/// What a call goes to.
#[derive(Debug)]
pub enum CallTarget {
    /// A callable value in a local.
    Indirect { callee: LocalId, signature: Type },
    /// A named function or enum constructor.
    Direct { target_name: String, ret: Option<Type>, enum_ctor: Option<EnumCtorInfo> },
    /// The function behind a method; its result type, where its signature is
    /// known.
    Method { function: String, result: Option<Type> },
}

/// The mathematical model of a [`CallTarget`].
pub enum TargetView {
    Indirect { callee: LocalId, signature: TypeView },
    Direct { target_name: Seq<char>, ret: Option<TypeView>, enum_ctor: Option<EnumCtorInfo> },
    Method { function: Seq<char>, result: Option<TypeView> },
}

impl View for CallTarget {
    type V = TargetView;

    open spec fn view(&self) -> TargetView {
        match *self {
            CallTarget::Indirect { callee, signature } => TargetView::Indirect {
                callee,
                signature: signature@,
            },
            CallTarget::Direct { target_name, ret, enum_ctor } => TargetView::Direct {
                target_name: target_name@,
                ret: type_option_view(ret),
                enum_ctor,
            },
            CallTarget::Method { function, result } => TargetView::Method {
                function: function@,
                result: type_option_view(result),
            },
        }
    }
}

/// A call whose arguments are being lowered one by one.
#[derive(Debug)]
pub struct CallFrame {
    pub target: CallTarget,
    pub callee_name: String,
    /// The parameter types, where they are known.
    pub params: Vec<Option<Type>>,
    /// How many arguments the call has.
    pub arity: usize,
    /// How many of them were supplied.
    pub supplied: usize,
    /// The operands of the call so far.
    pub values: Vec<LoweredValue>,
    /// The temporaries whose loans end with the call.
    pub temporaries: Vec<LocalId>,
    /// The locals that were passed as exclusive callables.
    pub exclusive: HashSet<u32>,
    pub span: Span,
    pub expected_ret: Option<Type>,
}

pub open spec fn params_view(params: Seq<Option<Type>>) -> Seq<Option<TypeView>> {
    Seq::new(params.len(), |i: int| type_option_view(params[i]))
}

pub open spec fn lowered_list_view(values: Seq<LoweredValue>) -> Seq<LoweredView> {
    Seq::new(values.len(), |i: int| values[i]@)
}

pub open spec fn operands(values: Seq<LoweredView>) -> Seq<MirValue> {
    Seq::new(values.len(), |i: int| values[i].value)
}

/// The mathematical model of a [`CallFrame`].
pub struct FrameView {
    pub target: TargetView,
    pub callee_name: Seq<char>,
    pub params: Seq<Option<TypeView>>,
    pub arity: int,
    pub supplied: int,
    pub values: Seq<LoweredView>,
    pub temporaries: Seq<LocalId>,
    pub exclusive: Set<u32>,
    pub span: Span,
    pub expected_ret: Option<TypeView>,
}

impl View for CallFrame {
    type V = FrameView;

    open spec fn view(&self) -> FrameView {
        FrameView {
            target: self.target@,
            callee_name: self.callee_name@,
            params: params_view(self.params@),
            arity: self.arity as int,
            supplied: self.supplied as int,
            values: lowered_list_view(self.values@),
            temporaries: self.temporaries@,
            exclusive: self.exclusive@,
            span: self.span,
            expected_ret: type_option_view(self.expected_ret),
        }
    }
}

impl FrameView {
    /// The type that the next argument is lowered towards.
    pub open spec fn next_expected(self) -> Option<TypeView> {
        if 0 <= self.supplied < self.params.len() {
            self.params[self.supplied]
        } else {
            None
        }
    }

    /// The frame with one more argument.
    pub open spec fn with_argument(self, value: LoweredView, by_ref_expr: bool) -> FrameView {
        FrameView {
            supplied: self.supplied + 1,
            values: self.values.push(value),
            temporaries: match argument_temporary(by_ref_expr, value.value) {
                Some(local) => self.temporaries.push(local),
                None => self.temporaries,
            },
            exclusive: match value.value {
                MirValue::Local(local) => if is_fn_mut(self.next_expected())
                    && self.target !is Method {
                    self.exclusive.insert(local.0)
                } else {
                    self.exclusive
                },
                _ => self.exclusive,
            },
            ..self
        }
    }

    /// Whether an exclusive callable is passed a second time.
    pub open spec fn is_aliased(self, value: MirValue) -> bool {
        self.target !is Method && is_fn_mut(self.next_expected()) && (value matches MirValue::Local(
            local,
        ) && self.exclusive.contains(local.0))
    }

    /// Why the next argument does not fit.
    pub open spec fn next_problem(self, value: LoweredView) -> Option<Seq<char>> {
        match (self.target, self.next_expected()) {
            (TargetView::Indirect { .. }, Some(expected)) => argument_problem(
                value.ty,
                expected,
                self.supplied as nat,
                self.callee_name,
            ),
            _ => None,
        }
    }
}

/// What lowering of a call does next.
#[derive(Debug)]
pub enum CallStep {
    Done(Option<Rvalue>),
    /// The next argument of the call is to be lowered.
    Argument(CallFrame),
}

/// The mathematical model of a [`CallStep`].
pub enum CallStepView {
    Done(Option<RvalueView>),
    Argument(FrameView),
}

impl View for CallStep {
    type V = CallStepView;

    open spec fn view(&self) -> CallStepView {
        match *self {
            CallStep::Done(value) => CallStepView::Done(rvalue_option_view(value)),
            CallStep::Argument(frame) => CallStepView::Argument(frame@),
        }
    }
}

/// The known types of the operands from position `i` on.
pub open spec fn known_types(values: Seq<LoweredView>, i: int) -> Seq<TypeView>
    decreases values.len() - i,
{
    if i < 0 || i >= values.len() {
        Seq::empty()
    } else {
        let rest = known_types(values, i + 1);
        match values[i].ty {
            Some(ty) => seq![ty] + rest,
            None => rest,
        }
    }
}

/// The type of a constructed enum: the expected application of it, or an
/// application to the types of the operands where the enum is generic and
/// nothing is expected.
pub open spec fn constructed_type(
    ctor: EnumCtorInfo,
    ret: Option<TypeView>,
    expected: Option<TypeView>,
    values: Seq<LoweredView>,
) -> Option<TypeView> {
    match expected {
        Some(TypeView::App { base, args }) => if base == ctor.enum_name@ {
            expected
        } else {
            ret
        },
        Some(_) => ret,
        None => if ctor.has_generics && known_types(values, 0).len() > 0 {
            Some(TypeView::App { base: ctor.enum_name@, args: known_types(values, 0) })
        } else {
            ret
        },
    }
}

pub open spec fn or_unit(ty: Option<TypeView>) -> TypeView {
    match ty {
        Some(ty) => ty,
        None => TypeView::Void,
    }
}

impl LowerState {
    /// The call itself, with all its operands.
    #[verifier::opaque]
    pub open spec fn calling(self, frame: FrameView) -> (LowerState, Option<RvalueView>) {
        let tmp = LocalId(self.next_local);
        let result = Some(RvalueView::Move(tmp));
        match frame.target {
            TargetView::Indirect { callee, signature } => match signature.callable_signature() {
                Some((_, ret)) => (
                    self.with_typed_local(ret).assigned(
                        tmp,
                        indirect_call(callee, signature, operands(frame.values)),
                    ).without_temporaries(frame.temporaries, 0),
                    result,
                ),
                None => (self, None),
            },
            TargetView::Direct { ret, enum_ctor: Some(ctor), .. } => (
                self.with_typed_local(
                    or_unit(constructed_type(ctor, ret, frame.expected_ret, frame.values)),
                ).assigned(
                    tmp,
                    RvalueView::EnumConstruct {
                        enum_name: ctor.enum_name@,
                        variant_index: ctor.variant_index as u32,
                        payload: if frame.values.len() > 0 {
                            Some(frame.values[0].value)
                        } else {
                            None
                        },
                    },
                ),
                result,
            ),
            TargetView::Direct { target_name, ret, enum_ctor: None } => {
                let called = self.with_typed_local(or_unit(ret)).assigned(
                    tmp,
                    RvalueView::Call { name: target_name, args: operands(frame.values) },
                ).without_temporaries(frame.temporaries, 0);
                (called.with_returned_provenance(tmp, target_name), result)
            },
            TargetView::Method { function, result: known } => {
                let fresh = match known {
                    Some(ty) => self.with_typed_local(ty),
                    None => self.with_fresh_local(None),
                };
                (
                    fresh.assigned(
                        tmp,
                        RvalueView::Call { name: function, args: operands(frame.values) },
                    ).without_temporaries(frame.temporaries, 0),
                    result,
                )
            },
        }
    }

    /// A returned callable has the provenance that its function passes on.
    pub open spec fn with_returned_provenance(self, local: LocalId, function: Seq<char>) -> LowerState {
        if self.local_type(local) matches Some(ty) && ty is Function {
            match value_of(self.return_provenance, function) {
                Some(provenance) => self.with_provenance(local, provenance),
                None => self,
            }
        } else {
            self
        }
    }

    /// What a call does next when `frame` is complete or not.
    #[verifier::opaque]
    pub open spec fn advancing(self, frame: FrameView) -> (LowerState, CallStepView) {
        if frame.supplied >= frame.arity {
            let (called, result) = self.calling(frame);
            (called, CallStepView::Done(result))
        } else {
            (self, CallStepView::Argument(frame))
        }
    }

    /// The next argument of a call.
    pub open spec fn supplying(
        self,
        frame: FrameView,
        by_ref_expr: bool,
        value: Option<LoweredView>,
    ) -> (LowerState, CallStepView) {
        match value {
            None => (self, CallStepView::Done(None)),
            Some(value) => match frame.next_problem(value) {
                Some(problem) => (
                    self.error(problem, Some(frame.span)),
                    CallStepView::Done(None),
                ),
                None => if frame.is_aliased(value.value) {
                    (
                        self.error(
                            "an FnMut callable cannot be aliased across multiple arguments in one call"@,
                            Some(frame.span),
                        ),
                        CallStepView::Done(None),
                    )
                } else {
                    let (handed, taken) = self.handing_over(
                        value.value,
                        frame.span,
                        takes_reference(frame.next_expected()),
                    );
                    if taken {
                        handed.advancing(frame.with_argument(value, by_ref_expr))
                    } else {
                        (handed, CallStepView::Done(None))
                    }
                },
            },
        }
    }
}

/// The call of a callable value: an owned one is consumed, a borrowed one is
/// shared or used exclusively.
pub open spec fn indirect_call(callee: LocalId, signature: TypeView, args: Seq<MirValue>) -> RvalueView {
    match signature {
        TypeView::BorrowedFunction { kind: BorrowedCallableKind::Fn, .. } => {
            RvalueView::CallIndirectShared { callee, signature, args }
        },
        TypeView::BorrowedFunction { kind: BorrowedCallableKind::FnMut, .. } => {
            RvalueView::CallIndirectMut { callee, signature, args }
        },
        _ => RvalueView::CallIndirect { callee, signature, args },
    }
}

fn operands_of(values: &Vec<LoweredValue>) -> (args: Vec<MirValue>)
    ensures
        args@ == operands(lowered_list_view(values@)),
{
    let mut args: Vec<MirValue> = Vec::new();
    let mut i: usize = 0;
    while i < values.len()
        invariant
            i <= values.len(),
            args.len() == i,
            forall|j: int| 0 <= j < i ==> (#[trigger] args@[j]) == values@[j].value,
        decreases values.len() - i,
    {
        args.push(values[i].value);
        i += 1;
    }
    assert(args@ =~= operands(lowered_list_view(values@)));
    args
}

fn known_types_of(values: &Vec<LoweredValue>) -> (types: Vec<Type>)
    ensures
        types_view(types@) == known_types(lowered_list_view(values@), 0),
{
    let ghost views = lowered_list_view(values@);
    let mut types: Vec<Type> = Vec::new();
    let mut i: usize = 0;
    assert(types_view(types@) =~= Seq::empty());
    assert(known_types(views, 0) =~= types_view(types@) + known_types(views, 0));
    while i < values.len()
        invariant
            i <= values.len(),
            views == lowered_list_view(values@),
            views.len() == values.len(),
            types_view(types@) + known_types(views, i as int) == known_types(views, 0),
        decreases values.len() - i,
    {
        let ghost before = types_view(types@);
        let ghost rest = known_types(views, i + 1);
        assert(views[i as int] == values@[i as int]@);
        match &values[i].ty {
            Some(ty) => {
                types.push(ty.clone());
                assert(types_view(types@) =~= before + seq![ty@]);
                assert(types_view(types@) + rest =~= before + known_types(views, i as int));
            },
            None => {},
        }
        i += 1;
    }
    assert(types_view(types@) =~= known_types(views, 0));
    types
}

fn clone_type_option(ty: &Option<Type>) -> (copy: Option<Type>)
    ensures
        type_option_view(copy) == type_option_view(*ty),
{
    match ty {
        Some(ty) => Some(ty.clone()),
        None => None,
    }
}

fn type_or_unit(ty: Option<Type>) -> (known: Type)
    ensures
        known@ == or_unit(type_option_view(ty)),
{
    match ty {
        Some(ty) => ty,
        None => Type::Void,
    }
}

fn enum_type(
    ctor: &EnumCtorInfo,
    ret: &Option<Type>,
    expected: &Option<Type>,
    values: &Vec<LoweredValue>,
) -> (ty: Option<Type>)
    ensures
        type_option_view(ty) == constructed_type(
            *ctor,
            type_option_view(*ret),
            type_option_view(*expected),
            lowered_list_view(values@),
        ),
{
    match expected {
        Some(expected) => match expected {
            Type::App { base, .. } => {
                if same_text(base.as_str(), ctor.enum_name.as_str()) {
                    Some(expected.clone())
                } else {
                    clone_type_option(ret)
                }
            },
            _ => clone_type_option(ret),
        },
        None => {
            let args = known_types_of(values);
            proof {
                assert(types_view(args@).len() == args@.len());
            }
            if ctor.has_generics && args.len() > 0 {
                Some(Type::App { base: ctor.enum_name.clone(), args })
            } else {
                clone_type_option(ret)
            }
        },
    }
}

fn indirect_call_of(signature: &Type, callee: LocalId, args: Vec<MirValue>) -> (call: Rvalue)
    ensures
        call@ == indirect_call(callee, signature@, args@),
{
    match signature {
        Type::BorrowedFunction { kind: BorrowedCallableKind::Fn, .. } => {
            Rvalue::CallIndirectShared { callee, signature: signature.clone(), args }
        },
        Type::BorrowedFunction { kind: BorrowedCallableKind::FnMut, .. } => {
            Rvalue::CallIndirectMut { callee, signature: signature.clone(), args }
        },
        _ => Rvalue::CallIndirect { callee, signature: signature.clone(), args },
    }
}

impl<'a> LowerCtx<'a> {
    fn adopt_returned_provenance(&mut self, local: LocalId, function: &str)
        ensures
            final(self)@ == old(self)@.with_returned_provenance(local, function@),
    {
        let callable = match self.local_ty(local) {
            Some(ty) => match ty {
                Type::Function { .. } => true,
                _ => false,
            },
            None => false,
        };
        if !callable {
            return;
        }
        match self.return_provenance_of(function) {
            Some(provenance) => self.insert_provenance(local, provenance),
            None => {},
        }
    }

    /// Emits a call with all its operands.
    pub fn emit_call(&mut self, frame: &CallFrame) -> (result: Option<Rvalue>)
        ensures
            (final(self)@, rvalue_option_view(result)) == old(self)@.calling(frame@),
    {
        proof {
            reveal(LowerState::calling);
        }
        let args = operands_of(&frame.values);
        match &frame.target {
            CallTarget::Indirect { callee, signature } => {
                let ret = match signature.function_signature() {
                    Some((_, ret)) => ret.clone(),
                    None => {
                        return None;
                    },
                };
                let tmp = self.typed_local(ret);
                self.assign(tmp, indirect_call_of(signature, *callee, args));
                self.release_temporary_call_loans(&frame.temporaries);
                Some(Rvalue::Move(tmp))
            },
            CallTarget::Direct { target_name, ret, enum_ctor } => match enum_ctor {
                Some(ctor) => {
                    let ty = enum_type(ctor, ret, &frame.expected_ret, &frame.values);
                    let payload = if frame.values.len() > 0 {
                        Some(frame.values[0].value)
                    } else {
                        None
                    };
                    let tmp = self.typed_local(type_or_unit(ty));
                    self.assign(
                        tmp,
                        Rvalue::EnumConstruct {
                            enum_name: ctor.enum_name.clone(),
                            variant_index: ctor.variant_index as u32,
                            payload,
                        },
                    );
                    Some(Rvalue::Move(tmp))
                },
                None => {
                    let tmp = self.typed_local(type_or_unit(clone_type_option(ret)));
                    self.assign(tmp, Rvalue::Call { name: target_name.clone(), args });
                    self.release_temporary_call_loans(&frame.temporaries);
                    self.adopt_returned_provenance(tmp, target_name.as_str());
                    Some(Rvalue::Move(tmp))
                },
            },
            CallTarget::Method { function, result } => {
                let tmp = match result {
                    Some(ty) => self.typed_local(ty.clone()),
                    None => self.fresh_local(None),
                };
                self.assign(tmp, Rvalue::Call { name: function.clone(), args });
                self.release_temporary_call_loans(&frame.temporaries);
                Some(Rvalue::Move(tmp))
            },
        }
    }

    /// Emits the call once all arguments were supplied.
    pub fn advance_call(&mut self, frame: CallFrame) -> (step: CallStep)
        ensures
            (final(self)@, step@) == old(self)@.advancing(frame@),
    {
        proof {
            reveal(LowerState::advancing);
        }
        if frame.supplied >= frame.arity {
            CallStep::Done(self.emit_call(&frame))
        } else {
            CallStep::Argument(frame)
        }
    }

    /// Goes on with the next argument of a call: its expression, and what it was
    /// lowered to.
    pub fn supply_argument(
        &mut self,
        frame: CallFrame,
        argument: &Expr,
        value: Option<LoweredValue>,
    ) -> (step: CallStep)
        requires
            frame.supplied < frame.arity,
        ensures
            (final(self)@, step@) == old(self)@.supplying(
                frame@,
                *argument is Ref,
                lowered_option_view(value),
            ),
    {
        let mut frame = frame;
        let ghost before = frame@;
        let lowered = match value {
            Some(lowered) => lowered,
            None => {
                return CallStep::Done(None);
            },
        };
        let ghost view = lowered@;
        let is_method = match &frame.target {
            CallTarget::Method { .. } => true,
            _ => false,
        };
        let is_indirect = match &frame.target {
            CallTarget::Indirect { .. } => true,
            _ => false,
        };
        let exclusive;
        let handed;
        {
            let expected: Option<&Type> = if frame.supplied < frame.params.len() {
                match &frame.params[frame.supplied] {
                    Some(ty) => Some(ty),
                    None => None,
                }
            } else {
                None
            };
            assert(type_ref_view(expected) == before.next_expected());
            if is_indirect {
                match expected {
                    Some(expected) => {
                        let actual = match &lowered.ty {
                            Some(ty) => Some(ty),
                            None => None,
                        };
                        if !self.validate_call_argument(
                            actual,
                            expected,
                            frame.supplied,
                            frame.callee_name.as_str(),
                            frame.span,
                        ) {
                            return CallStep::Done(None);
                        }
                    },
                    None => {},
                }
            }
            exclusive = !is_method && expects_fn_mut(expected);
            match lowered.value {
                MirValue::Local(local) => {
                    if exclusive && frame.exclusive.contains(&local.0) {
                        self.error(
                            "an FnMut callable cannot be aliased across multiple arguments in one call",
                            Some(frame.span),
                        );
                        return CallStep::Done(None);
                    }
                },
                _ => {},
            }
            handed = self.consume_call_local(&lowered.value, frame.span, expected);
        }
        if !handed {
            return CallStep::Done(None);
        }
        match lowered.value {
            MirValue::Local(local) => {
                if exclusive {
                    frame.exclusive.insert(local.0);
                }
            },
            _ => {},
        }
        match temporary_call_loan(argument, &lowered.value) {
            Some(local) => frame.temporaries.push(local),
            None => {},
        }
        frame.values.push(lowered);
        frame.supplied = frame.supplied + 1;
        proof {
            assert(frame@.values =~= before.values.push(view));
            assert(frame@ == before.with_argument(view, *argument is Ref));
        }
        self.advance_call(frame)
    }
}

/// The text of a wrong number of arguments.
pub open spec fn count_text(kind: Seq<char>, name: Seq<char>, expected: nat, actual: nat) -> Seq<char> {
    kind + " '"@ + name + "' expects "@ + decimal_text(expected) + " arguments but got "@
        + decimal_text(actual)
}

/// The text of a result that does not fit.
pub open spec fn result_text(
    kind: Seq<char>,
    name: Seq<char>,
    actual: TypeView,
    expected: TypeView,
) -> Seq<char> {
    kind + " '"@ + name + "' returns '"@ + spelled(actual) + "', but '"@ + spelled(expected)
        + "' is required here"@
}

pub open spec fn known_params(params: Seq<TypeView>) -> Seq<Option<TypeView>> {
    Seq::new(params.len(), |i: int| Some(params[i]))
}

pub open spec fn any_unknown(params: Seq<Option<TypeView>>) -> bool {
    exists|i: int| 0 <= i < params.len() && (#[trigger] params[i]) is None
}

impl LowerState {
    /// The call of a callable value in a local.
    pub open spec fn beginning_indirect(
        self,
        callee: LocalId,
        name: Seq<char>,
        signature: TypeView,
        count: nat,
        span: Span,
        expected: Option<TypeView>,
    ) -> (LowerState, CallStepView) {
        let failed = |message: Seq<char>|
            (self.error(message, Some(span)), CallStepView::Done(None));
        if !self.is_available(callee) {
            (self.checking_available(callee, Some(span)), CallStepView::Done(None))
        } else {
            match signature.callable_signature() {
                None => failed(
                    "value '"@ + name + "' of type '"@ + spelled(signature) + "' is not callable"@,
                ),
                Some((params, ret)) => if params.len() != count {
                    failed(count_text("callable"@, name, params.len(), count))
                } else if expected matches Some(wanted) && !compatible(ret, wanted) {
                    failed(result_text("callable"@, name, ret, expected->Some_0))
                } else {
                    self.advancing(
                        FrameView {
                            target: TargetView::Indirect { callee, signature },
                            callee_name: name,
                            params: known_params(params),
                            arity: count as int,
                            supplied: 0,
                            values: Seq::empty(),
                            temporaries: Seq::empty(),
                            exclusive: Set::empty(),
                            span,
                            expected_ret: expected,
                        },
                    )
                },
            }
        }
    }

    /// The call of a function with a known signature.
    pub open spec fn beginning_direct(
        self,
        name: Seq<char>,
        sig: FnSig,
        count: nat,
        span: Span,
        expected: Option<TypeView>,
    ) -> (LowerState, CallStepView) {
        let failed = |message: Seq<char>|
            (self.error(message, Some(span)), CallStepView::Done(None));
        let params = params_view(sig.params@);
        let ret = type_option_view(sig.ret);
        if params.len() != count {
            failed(count_text("function"@, name, params.len(), count))
        } else if any_unknown(params) {
            failed("function '"@ + name + "' has unknown parameter types"@)
        } else if expected matches Some(wanted) && (or_unit(ret) is Function || wanted is Function)
            && !compatible(or_unit(ret), wanted) {
            failed(result_text("function"@, name, or_unit(ret), expected->Some_0))
        } else {
            self.advancing(
                FrameView {
                    target: TargetView::Direct {
                        target_name: sig.target_name@,
                        ret,
                        enum_ctor: sig.enum_ctor,
                    },
                    callee_name: name,
                    params,
                    arity: count as int,
                    supplied: 0,
                    values: Seq::empty(),
                    temporaries: Seq::empty(),
                    exclusive: Set::empty(),
                    span,
                    expected_ret: expected,
                },
            )
        }
    }

    /// The call of what a name denotes: a callable local first, then a function.
    #[verifier::opaque]
    pub open spec fn beginning_named(
        self,
        callee: Expr,
        count: nat,
        span: Span,
        expected: Option<TypeView>,
    ) -> (LowerState, CallStepView) {
        let failed = |message: Seq<char>|
            (self.error(message, Some(span)), CallStepView::Done(None));
        match callee {
            Expr::Ident(ident, _) => match value_of(self.bindings, ident.0@) {
                Some(local) => match self.local_type(local) {
                    Some(ty) => self.beginning_indirect(local, ident.0@, ty, count, span, expected),
                    None => failed(
                        "cannot call '"@ + ident.0@ + "' because its type is unknown"@,
                    ),
                },
                None => match value_of(self.fn_sigs, ident.0@) {
                    Some(sig) => self.beginning_direct(ident.0@, sig, count, span, expected),
                    None => failed("unknown function '"@ + ident.0@ + "'"@),
                },
            },
            _ => failed("call target must be a function or callable local"@),
        }
    }
}

fn clone_params(params: &Vec<Option<Type>>) -> (copy: Vec<Option<Type>>)
    ensures
        params_view(copy@) == params_view(params@),
{
    let mut copy: Vec<Option<Type>> = Vec::new();
    let mut i: usize = 0;
    while i < params.len()
        invariant
            i <= params.len(),
            copy.len() == i,
            forall|j: int|
                0 <= j < i ==> type_option_view(#[trigger] copy@[j]) == type_option_view(params@[j]),
        decreases params.len() - i,
    {
        copy.push(clone_type_option(&params[i]));
        i += 1;
    }
    assert(params_view(copy@) =~= params_view(params@));
    copy
}

fn params_of(params: &[Type]) -> (known: Vec<Option<Type>>)
    ensures
        params_view(known@) == known_params(types_view(params@)),
{
    let mut known: Vec<Option<Type>> = Vec::new();
    let mut i: usize = 0;
    while i < params.len()
        invariant
            i <= params.len(),
            known.len() == i,
            forall|j: int|
                0 <= j < i ==> type_option_view(#[trigger] known@[j]) == Some(params@[j]@),
        decreases params.len() - i,
    {
        known.push(Some(params[i].clone()));
        i += 1;
    }
    assert(params_view(known@) =~= known_params(types_view(params@)));
    known
}

fn has_unknown_params(params: &Vec<Option<Type>>) -> (unknown: bool)
    ensures
        unknown == any_unknown(params_view(params@)),
{
    let ghost views = params_view(params@);
    let mut i: usize = 0;
    while i < params.len()
        invariant
            i <= params.len(),
            views == params_view(params@),
            views.len() == params.len(),
            forall|j: int| 0 <= j < i ==> (#[trigger] views[j]) is Some,
        decreases params.len() - i,
    {
        assert(views[i as int] == type_option_view(params@[i as int]));
        if params[i].is_none() {
            assert(views[i as int] is None);
            return true;
        }
        i += 1;
    }
    false
}

fn clone_expected(ty: Option<&Type>) -> (copy: Option<Type>)
    ensures
        type_option_view(copy) == type_ref_view(ty),
{
    match ty {
        Some(ty) => Some(ty.clone()),
        None => None,
    }
}

fn is_function_type(ty: &Type) -> (function: bool)
    ensures
        function == (ty@ is Function),
{
    match ty {
        Type::Function { .. } => true,
        _ => false,
    }
}

impl<'a> LowerCtx<'a> {
    fn fail_call(&mut self, message: &str, span: Span) -> (step: CallStep)
        ensures
            final(self)@ == old(self)@.error(message@, Some(span)),
            step@ == CallStepView::Done(None),
    {
        self.error(message, Some(span));
        CallStep::Done(None)
    }

    fn fail_count(&mut self, kind: &str, name: &str, expected: usize, actual: usize, span: Span) -> (step:
        CallStep)
        ensures
            final(self)@ == old(self)@.error(
                count_text(kind@, name@, expected as nat, actual as nat),
                Some(span),
            ),
            step@ == CallStepView::Done(None),
    {
        let message = concat7(
            kind,
            " '",
            name,
            "' expects ",
            decimal(expected as u64).as_str(),
            " arguments but got ",
            decimal(actual as u64).as_str(),
        );
        self.fail_call(message.as_str(), span)
    }

    fn fail_result(&mut self, kind: &str, name: &str, actual: &Type, expected: &Type, span: Span) -> (step:
        CallStep)
        ensures
            final(self)@ == old(self)@.error(
                result_text(kind@, name@, actual@, expected@),
                Some(span),
            ),
            step@ == CallStepView::Done(None),
    {
        let head = concat5(kind, " '", name, "' returns '", type_label(actual).as_str());
        let message = concat4(
            head.as_str(),
            "', but '",
            type_label(expected).as_str(),
            "' is required here",
        );
        self.fail_call(message.as_str(), span)
    }

    /// Starts the call of a callable value in a local.
    pub fn lower_indirect_call(
        &mut self,
        callee: LocalId,
        callee_name: &str,
        signature: Type,
        args: &Vec<Expr>,
        span: Span,
        expected_ret: Option<&Type>,
    ) -> (step: CallStep)
        ensures
            (final(self)@, step@) == old(self)@.beginning_indirect(
                callee,
                callee_name@,
                signature@,
                args@.len(),
                span,
                type_ref_view(expected_ret),
            ),
    {
        if !self.check_local_available(callee, Some(span)) {
            return CallStep::Done(None);
        }
        let params;
        {
            let (given, ret) = match signature.function_signature() {
                Some(found) => found,
                None => {
                    let message = concat5(
                        "value '",
                        callee_name,
                        "' of type '",
                        type_label(&signature).as_str(),
                        "' is not callable",
                    );
                    return self.fail_call(message.as_str(), span);
                },
            };
            assert(types_view(given@).len() == given@.len());
            if given.len() != args.len() {
                return self.fail_count("callable", callee_name, given.len(), args.len(), span);
            }
            match expected_ret {
                Some(expected) => {
                    if !call_types_compatible(ret, expected) {
                        return self.fail_result("callable", callee_name, ret, expected, span);
                    }
                },
                None => {},
            }
            params = params_of(given);
        }
        let ghost signature_view = signature@;
        let frame = CallFrame {
            target: CallTarget::Indirect { callee, signature },
            callee_name: callee_name.to_owned(),
            params,
            arity: args.len(),
            supplied: 0,
            values: Vec::new(),
            temporaries: Vec::new(),
            exclusive: HashSet::new(),
            span,
            expected_ret: clone_expected(expected_ret),
        };
        assert(frame@.values =~= Seq::empty());
        self.advance_call(frame)
    }

    fn begin_direct_call(
        &mut self,
        name: &str,
        sig: &FnSig,
        args: &Vec<Expr>,
        span: Span,
        expected_ret: Option<&Type>,
    ) -> (step: CallStep)
        ensures
            (final(self)@, step@) == old(self)@.beginning_direct(
                name@,
                *sig,
                args@.len(),
                span,
                type_ref_view(expected_ret),
            ),
    {
        assert(params_view(sig.params@).len() == sig.params@.len());
        if sig.params.len() != args.len() {
            return self.fail_count("function", name, sig.params.len(), args.len(), span);
        }
        if has_unknown_params(&sig.params) {
            let message = concat3("function '", name, "' has unknown parameter types");
            return self.fail_call(message.as_str(), span);
        }
        match expected_ret {
            Some(expected) => {
                let actual = type_or_unit(clone_type_option(&sig.ret));
                if (is_function_type(&actual) || is_function_type(expected))
                    && !call_types_compatible(&actual, expected) {
                    return self.fail_result("function", name, &actual, expected, span);
                }
            },
            None => {},
        }
        let frame = CallFrame {
            target: CallTarget::Direct {
                target_name: sig.target_name.clone(),
                ret: clone_type_option(&sig.ret),
                enum_ctor: match &sig.enum_ctor {
                    Some(ctor) => Some(ctor.clone()),
                    None => None,
                },
            },
            callee_name: name.to_owned(),
            params: clone_params(&sig.params),
            arity: args.len(),
            supplied: 0,
            values: Vec::new(),
            temporaries: Vec::new(),
            exclusive: HashSet::new(),
            span,
            expected_ret: clone_expected(expected_ret),
        };
        assert(frame@.values =~= Seq::empty());
        self.advance_call(frame)
    }

    /// Starts the call of what a name denotes.
    pub fn begin_named_call(
        &mut self,
        callee: &Expr,
        args: &Vec<Expr>,
        span: Span,
        expected_ret: Option<&Type>,
    ) -> (step: CallStep)
        ensures
            (final(self)@, step@) == old(self)@.beginning_named(
                *callee,
                args@.len(),
                span,
                type_ref_view(expected_ret),
            ),
    {
        proof {
            reveal(LowerState::beginning_named);
        }
        let name = match callee {
            Expr::Ident(ident, _) => ident.0.as_str(),
            _ => {
                return self.fail_call("call target must be a function or callable local", span);
            },
        };
        match self.bound_local(name) {
            Some(local) => {
                let signature = match self.local_ty(local) {
                    Some(ty) => ty.clone(),
                    None => {
                        let message = concat3(
                            "cannot call '",
                            name,
                            "' because its type is unknown",
                        );
                        return self.fail_call(message.as_str(), span);
                    },
                };
                self.lower_indirect_call(local, name, signature, args, span, expected_ret)
            },
            None => {
                let sigs = self.fn_sigs;
                match sigs.get(name) {
                    Some(sig) => self.begin_direct_call(name, sig, args, span, expected_ret),
                    None => {
                        let message = concat3("unknown function '", name, "'");
                        self.fail_call(message.as_str(), span)
                    },
                }
            },
        }
    }
}

} // verus!
