//! What a call does: which code it emits for which target, that the operands are
//! the arguments in order, and what becomes of them.

use vstd::prelude::*;

use crate::ast::{Expr, Ident};
use crate::diag::Span;
use crate::lower::call::{
    any_unknown, compatible, constructed_type, indirect_call, known_params, operands, or_unit,
    params_view, takes_reference, CallStepView, FrameView, TargetView,
};
use crate::lower::execution::{
    arrives, puts, typed_locals_take_the_next_number, values_are_put_once, Run,
};
use crate::lower::laws::releasing_keeps_the_others;
use crate::lower::outline::fresh_locals_get_their_own_number;
use crate::lower::state::{held_by, held_by_others, HeldLoan, LocalState, LowerState};
use crate::lower::values::LoweredView;
use crate::mir::{LocalId, MirValue, RvalueView};
use crate::table::value_of;
use crate::types::{type_option_view, BorrowedCallableKind, TypeView};

verus! {

/// The operand list of a call.
pub open spec fn arguments(frame: FrameView) -> Seq<MirValue> {
    Seq::new(frame.values.len(), |i: int| frame.values[i].value)
}

/// The code of a call for each kind of target: a function by its name, a constructor
/// of a variant with its first argument, and a callable value in the way that its
/// type allows.
pub open spec fn call_for(frame: FrameView) -> RvalueView {
    match frame.target {
        TargetView::Direct { target_name, enum_ctor: None, .. } => RvalueView::Call {
            name: target_name,
            args: arguments(frame),
        },
        TargetView::Direct { enum_ctor: Some(ctor), .. } => RvalueView::EnumConstruct {
            enum_name: ctor.enum_name@,
            variant_index: ctor.variant_index as u32,
            payload: if frame.values.len() == 0 {
                None
            } else {
                Some(frame.values[0].value)
            },
        },
        TargetView::Method { function, .. } => RvalueView::Call {
            name: function,
            args: arguments(frame),
        },
        TargetView::Indirect { callee, signature } => match signature {
            TypeView::BorrowedFunction { kind, .. } => if kind == BorrowedCallableKind::FnMut {
                RvalueView::CallIndirectMut { callee, signature, args: arguments(frame) }
            } else {
                RvalueView::CallIndirectShared { callee, signature, args: arguments(frame) }
            },
            _ => RvalueView::CallIndirect { callee, signature, args: arguments(frame) },
        },
    }
}

/// The end of loans emits no code.
proof fn ended_loans_emit_nothing(state: LowerState, holders: Seq<LocalId>, i: int)
    ensures
        state.without_temporaries(holders, i).blocks == state.blocks,
        state.without_temporaries(holders, i).current == state.current,
        state.without_temporaries(holders, i).locals == state.locals,
        state.without_temporaries(holders, i).states == state.states,
    decreases holders.len() - i,
{
    if 0 <= i < holders.len() {
        ended_loans_emit_nothing(state.without_temporary(holders[i]), holders, i + 1);
    }
}

/// A complete call is one instruction: it calls its target with the arguments in the
/// order in which they were supplied, and its value is in a fresh local.
pub proof fn calls_pass_their_arguments_in_order(
    state: LowerState,
    frame: FrameView,
    values: Map<LocalId, int>,
    outcomes: Map<LocalId, int>,
)
    requires
        state.has_room(1, 0),
        frame.target matches TargetView::Indirect { signature, .. } ==> signature is Function
            || signature is BorrowedFunction,
    ensures
        ({
            let (after, value) = state.calling(frame);
            let result = state.local_ahead(0);
            &&& value == Some(RvalueView::Move(result))
            &&& state.executes(after, values, outcomes, seq![puts(result, call_for(frame))])
        }),
{
    reveal(LowerState::calling);
    assert(operands(frame.values) =~= arguments(frame));
    let result = LocalId(state.next_local);
    let call = call_for(frame);
    let ty = match frame.target {
        TargetView::Indirect { signature, .. } => match signature {
            TypeView::Function { ret, .. } => Some(*ret),
            TypeView::BorrowedFunction { ret, .. } => Some(*ret),
            _ => None,
        },
        TargetView::Direct { ret, enum_ctor: Some(ctor), .. } => Some(
            or_unit(constructed_type(ctor, ret, frame.expected_ret, frame.values)),
        ),
        TargetView::Direct { ret, enum_ctor: None, .. } => Some(or_unit(ret)),
        TargetView::Method { result, .. } => result,
    };
    let (after, value) = state.calling(frame);
    let fresh = match ty {
        Some(ty) => state.with_typed_local(ty),
        None => state.with_fresh_local(None),
    };
    match ty {
        Some(ty) => typed_locals_take_the_next_number(state, ty),
        None => fresh_locals_get_their_own_number(state, None),
    }
    values_are_put_once(fresh, result, call);
    let called = fresh.assigned(result, call);
    ended_loans_emit_nothing(called, frame.temporaries, 0);
    assert(after.blocks == called.blocks && after.current == called.current);
    let c = state.current.0 as int;
    let code = after.blocks;
    assert(state.keeps_code(after)) by {
        assert(state.blocks[c] =~= code[c].subrange(0, state.blocks[c].len() as int));
    }
    let r0 = state.upcoming(values);
    let r1 = r0.step(code, outcomes);
    assert(r1.done =~= seq![puts(result, call)]);
    assert(r0.after(code, outcomes, 1) == r1) by {
        reveal_with_fuel(Run::after, 2);
    }
    assert(arrives(r0.after(code, outcomes, 1), after, seq![puts(result, call)]));
}

/// An argument that a call accepts becomes its last operand so far; a call that is
/// complete with it is made with all operands in order.
pub proof fn accepted_arguments_are_appended(
    state: LowerState,
    frame: FrameView,
    by_ref_expr: bool,
    value: LoweredView,
)
    ensures
        ({
            let (after, step) = state.supplying(frame, by_ref_expr, Some(value));
            let (handed, taken) = state.handing_over(
                value.value,
                frame.span,
                frame.next_expected() is Some && frame.next_expected()->0 is Ref,
            );
            match step {
                CallStepView::Argument(next) => {
                    &&& next.values == frame.values.push(value)
                    &&& next.supplied == frame.supplied + 1
                    &&& next.supplied < frame.arity
                    &&& next.target == frame.target
                    &&& next.params == frame.params
                    &&& next.arity == frame.arity
                    &&& after == handed && taken
                },
                CallStepView::Done(Some(_)) => {
                    &&& after == handed.calling(frame.with_argument(value, by_ref_expr)).0
                    &&& frame.supplied + 1 >= frame.arity
                    &&& taken
                },
                CallStepView::Done(None) => true,
            }
        }),
        frame.with_argument(value, by_ref_expr).values == frame.values.push(value),
        frame.with_argument(value, by_ref_expr).target == frame.target,
{
    reveal(LowerState::advancing);
    let (handed, taken) = state.handing_over(
        value.value,
        frame.span,
        takes_reference(frame.next_expected()),
    );
    let whole = frame.with_argument(value, by_ref_expr);
    assert(whole.values == frame.values.push(value) && whole.supplied == frame.supplied + 1
        && whole.target == frame.target && whole.arity == frame.arity && whole.params
        == frame.params);
    let (after, step) = state.supplying(frame, by_ref_expr, Some(value));
    if step is Done && step->Done_0 is Some {
        assert(after == handed.calling(whole).0 && taken);
    }
}

/// A value that is handed over by value is gone: neither a tracked value nor an
/// aggregate stays with the caller. A value that is handed over by reference stays.
pub proof fn arguments_by_value_are_gone(
    state: LowerState,
    local: LocalId,
    span: Span,
    by_reference: bool,
)
    requires
        state.has_local(local),
        state.states.len() == state.locals.len(),
        state.handing_over(MirValue::Local(local), span, by_reference).1,
        state.state_of(local) == Some(LocalState::Initialized),
    ensures
        ({
            let after = state.handing_over(MirValue::Local(local), span, by_reference).0;
            if by_reference {
                after == state
            } else {
                state.uses_ownership_tracking(local) || (state.local_type(local) matches Some(ty)
                    && (ty is Named || ty is App)) ==> after.state_of(local) == Some(
                    LocalState::Moved,
                )
            }
        }),
{
    reveal(LowerState::consuming);
    reveal(LowerState::is_consumable);
    reveal(LowerState::is_available);
    reveal(LowerState::checking_available);
}

/// Types that fit are the same type, but for what is spelled in two ways and what is
/// generic: unit, text, an open parameter, a reference to the very type, or callables
/// whose parts fit one by one.
pub proof fn fitting_types_are_the_same_type(actual: TypeView, expected: TypeView)
    requires
        compatible(actual, expected),
    ensures
        ({
            ||| actual == expected
            ||| actual is Param || expected is Param
            ||| (actual is Void || actual == TypeView::Tuple(Seq::empty())) && (expected is Void
                || expected == TypeView::Tuple(Seq::empty()))
            ||| (actual is Str || actual is String) && (expected is Str || expected is String)
            ||| actual matches TypeView::Ref(inner, _) && *inner == expected
            ||| expected matches TypeView::Ref(inner, _) && *inner == actual
            ||| (actual is Function || actual is BorrowedFunction) && (expected is Function
                || expected is BorrowedFunction)
        }),
        actual is BorrowedFunction ==> !(expected is Function),
        actual matches TypeView::BorrowedFunction { kind, .. } ==> (
        expected matches TypeView::BorrowedFunction { kind: wanted, .. } ==> actual == expected
            || kind == wanted || wanted == BorrowedCallableKind::FnMut),
{
    match (actual, expected) {
        (TypeView::Tuple(a), TypeView::Tuple(b)) => {
            if a.len() == 0 {
                assert(a =~= Seq::empty());
            }
            if b.len() == 0 {
                assert(b =~= Seq::empty());
            }
        },
        (TypeView::Tuple(a), _) => {
            if a.len() == 0 {
                assert(a =~= Seq::empty());
            }
        },
        (_, TypeView::Tuple(b)) => {
            if b.len() == 0 {
                assert(b =~= Seq::empty());
            }
        },
        _ => {},
    }
}

proof fn holders_have_a_loan(loans: Seq<HeldLoan>, holder: LocalId, i: int)
    requires
        0 <= i,
    ensures
        held_by(loans, holder, i).len() > 0 <==> exists|j: int|
            i <= j < loans.len() && (#[trigger] loans[j]).holder == holder,
    decreases loans.len() - i,
{
    if i < loans.len() {
        holders_have_a_loan(loans, holder, i + 1);
    }
}

proof fn releasing_frees_the_holder(state: LowerState, holder: LocalId, other: LocalId)
    ensures
        !state.without_temporary(holder).holds_loan(holder),
        !state.holds_loan(other) ==> !state.without_temporary(holder).holds_loan(other),
{
    let left = held_by_others(state.loans, holder, 0);
    releasing_keeps_the_others(state.loans, holder, 0);
    holders_have_a_loan(left, holder, 0);
    holders_have_a_loan(left, other, 0);
    holders_have_a_loan(state.loans, other, 0);
    if exists|j: int| 0 <= j < left.len() && (#[trigger] left[j]).holder == holder {
        let j = choose|j: int| 0 <= j < left.len() && (#[trigger] left[j]).holder == holder;
        assert(left[j].holder != holder);
    }
    if exists|j: int| 0 <= j < left.len() && (#[trigger] left[j]).holder == other {
        let j = choose|j: int| 0 <= j < left.len() && (#[trigger] left[j]).holder == other;
        let k = choose|k: int| 0 <= k < state.loans.len() && #[trigger] state.loans[k] == left[j];
        assert(state.loans[k].holder == other);
    }
}

proof fn freed_holders_stay_free(
    state: LowerState,
    holders: Seq<LocalId>,
    i: int,
    holder: LocalId,
)
    requires
        0 <= i,
    ensures
        (!state.holds_loan(holder) || exists|k: int|
            i <= k < holders.len() && #[trigger] holders[k] == holder)
            ==> !state.without_temporaries(holders, i).holds_loan(holder),
    decreases holders.len() - i,
{
    if i < holders.len() {
        releasing_frees_the_holder(state, holders[i], holder);
        freed_holders_stay_free(state.without_temporary(holders[i]), holders, i + 1, holder);
    }
}

/// A reference that was made for one call only lends nothing once the call is made.
pub proof fn temporary_loans_end_with_the_call(state: LowerState, frame: FrameView, k: int)
    requires
        0 <= k < frame.temporaries.len(),
        frame.target matches TargetView::Direct { enum_ctor, .. } ==> enum_ctor is None,
        frame.target matches TargetView::Indirect { signature, .. } ==> signature is Function
            || signature is BorrowedFunction,
    ensures
        !state.calling(frame).0.holds_loan(frame.temporaries[k]),
{
    reveal(LowerState::calling);
    let tmp = LocalId(state.next_local);
    let args = operands(frame.values);
    let called = match frame.target {
        TargetView::Indirect { callee, signature } => state.with_typed_local(
            (signature.callable_signature()->0).1,
        ).assigned(tmp, indirect_call(callee, signature, args)),
        TargetView::Direct { target_name, ret, .. } => state.with_typed_local(
            or_unit(ret),
        ).assigned(tmp, RvalueView::Call { name: target_name, args }),
        TargetView::Method { function, result } => match result {
            Some(ty) => state.with_typed_local(ty),
            None => state.with_fresh_local(None),
        }.assigned(tmp, RvalueView::Call { name: function, args }),
    };
    freed_holders_stay_free(called, frame.temporaries, 0, frame.temporaries[k]);
    let released = called.without_temporaries(frame.temporaries, 0);
    assert(state.calling(frame).0.loans == released.loans);
}

/// A name in a call stands for the callable local that it is bound to, and for a
/// function only where it is bound to none. The call goes to that target, its
/// arguments are lowered towards the parameters of the target, and it is refused with
/// a report if their numbers differ.
pub proof fn calls_go_to_what_their_name_stands_for(
    state: LowerState,
    ident: Ident,
    place: Span,
    count: nat,
    span: Span,
)
    requires
        count > 0,
    ensures
        ({
            let name = ident.0@;
            let (after, step) = state.beginning_named(Expr::Ident(ident, place), count, span, None);
            let refused = step == CallStepView::Done(None) && after.diagnostics.len()
                > state.diagnostics.len();
            match value_of(state.bindings, name) {
                Some(local) => match state.local_type(local) {
                    Some(TypeView::Function { params, ret }) => if !state.is_available(local)
                        || params.len() != count {
                        refused
                    } else {
                        after == state && is_first_argument(
                            step,
                            TargetView::Indirect {
                                callee: local,
                                signature: TypeView::Function { params, ret },
                            },
                            known(params),
                        )
                    },
                    Some(TypeView::BorrowedFunction { kind, params, ret }) => if !state.is_available(
                        local,
                    ) || params.len() != count {
                        refused
                    } else {
                        after == state && is_first_argument(
                            step,
                            TargetView::Indirect {
                                callee: local,
                                signature: TypeView::BorrowedFunction { kind, params, ret },
                            },
                            known(params),
                        )
                    },
                    _ => refused,
                },
                None => match value_of(state.fn_sigs, name) {
                    Some(sig) => if sig.params@.len() != count || (exists|i: int|
                        0 <= i < sig.params@.len() && (#[trigger] sig.params@[i]) is None) {
                        refused
                    } else {
                        after == state && (step matches CallStepView::Argument(frame)
                            && frame.target == (TargetView::Direct {
                            target_name: sig.target_name@,
                            ret: type_option_view(sig.ret),
                            enum_ctor: sig.enum_ctor,
                        }) && frame.arity == count && frame.supplied == 0 && frame.values.len()
                            == 0)
                    },
                    None => refused,
                },
            }
        }),
{
    reveal(LowerState::beginning_named);
    reveal(LowerState::advancing);
    reveal(LowerState::is_available);
    reveal(LowerState::checking_available);
    if let Some(local) = value_of(state.bindings, ident.0@) {
        match state.local_type(local) {
            Some(TypeView::Function { params, .. }) => {
                assert(known_params(params) =~= known(params));
            },
            Some(TypeView::BorrowedFunction { params, .. }) => {
                assert(known_params(params) =~= known(params));
            },
            _ => {},
        }
    } else if let Some(sig) = value_of(state.fn_sigs, ident.0@) {
        let params = params_view(sig.params@);
        assert(any_unknown(params) <==> exists|i: int|
            0 <= i < sig.params@.len() && (#[trigger] sig.params@[i]) is None) by {
            if any_unknown(params) {
                let i = choose|i: int| 0 <= i < params.len() && (#[trigger] params[i]) is None;
                assert(sig.params@[i] is None);
            }
            if exists|i: int| 0 <= i < sig.params@.len() && (#[trigger] sig.params@[i]) is None {
                let i = choose|i: int|
                    0 <= i < sig.params@.len() && (#[trigger] sig.params@[i]) is None;
                assert(params[i] is None);
            }
        }
    }
}

/// Parameter types that are all known.
pub open spec fn known(params: Seq<TypeView>) -> Seq<Option<TypeView>> {
    Seq::new(params.len(), |i: int| Some(params[i]))
}

/// Whether a call asks for its first argument.
pub open spec fn is_first_argument(
    step: CallStepView,
    target: TargetView,
    params: Seq<Option<TypeView>>,
) -> bool {
    step matches CallStepView::Argument(frame) && frame.target == target && frame.params == params
        && frame.arity == params.len() && frame.supplied == 0 && frame.values.len() == 0
}

/// An exclusive callable is passed at most once in a call: the second time it is
/// refused with a report.
pub proof fn exclusive_callables_are_passed_once(
    state: LowerState,
    frame: FrameView,
    local: LocalId,
    ty: Option<TypeView>,
    later: FrameView,
    params: Seq<TypeView>,
    ret: TypeView,
)
    requires
        !(frame.target is Method),
        frame.next_expected() == Some(
            TypeView::BorrowedFunction {
                kind: BorrowedCallableKind::FnMut,
                params,
                ret: Box::new(ret),
            },
        ),
        later.exclusive == frame.with_argument(
            LoweredView { value: MirValue::Local(local), ty },
            false,
        ).exclusive,
        later.next_expected() == frame.next_expected(),
        later.target == frame.target,
    ensures
        ({
            let (after, step) = state.supplying(
                later,
                false,
                Some(LoweredView { value: MirValue::Local(local), ty }),
            );
            step == CallStepView::Done(None) && after.diagnostics.len() == state.diagnostics.len()
                + 1
        }),
{
}

/// An argument whose type is known not to fit the parameter of a callable value is
/// refused with a report.
pub proof fn arguments_must_fit(
    state: LowerState,
    frame: FrameView,
    by_ref_expr: bool,
    value: MirValue,
    actual: TypeView,
    expected: TypeView,
)
    requires
        frame.target is Indirect,
        frame.next_expected() == Some(expected),
        !compatible(actual, expected),
    ensures
        ({
            let (after, step) = state.supplying(
                frame,
                by_ref_expr,
                Some(LoweredView { value, ty: Some(actual) }),
            );
            step == CallStepView::Done(None) && after.diagnostics.len() == state.diagnostics.len()
                + 1 && after.blocks == state.blocks
        }),
{
}

} // verus!
