//! What becomes of the values that an assignment takes, and of the value that it
//! replaces.

use vstd::prelude::*;

use crate::diag::Span;
use crate::lower::cleanup::forgetting_frees_only;
use crate::lower::outline::{
    bound_values_keep_the_outline, checks_keep_the_outline, drops_keep_the_outline,
};
use crate::lower::state::{
    arc_loan_on, owned_operands, stored_operands, ArcLoan, LocalState, LowerState,
};
use crate::mir::{LocalId, MirInstView, MirValue, RvalueView};
use crate::table::{key_position, key_position_is_first, without_key};

verus! {

/// Whether a value is built by putting an operand into a container that owns its
/// contents.
pub open spec fn takes(value: RvalueView, operand: MirValue) -> bool {
    match value {
        RvalueView::VecPush { value, .. } => value == operand,
        RvalueView::StructLit { field_values, .. } => exists|k: int|
            0 <= k < field_values.len() && (#[trigger] field_values[k]).1 == operand,
        RvalueView::EnumConstruct { payload, .. } => payload == Some(operand),
        RvalueView::ArcNew { value, .. } => value == operand,
        RvalueView::MutexNew { value, .. } => value == operand,
        RvalueView::MapAdd { key, value, .. } => key == operand || value == operand,
        RvalueView::MapUpdate { key, value, .. } => key == operand || value == operand,
        _ => false,
    }
}

/// Whether a value is built by storing an operand where it outlives the statement.
pub open spec fn stores(value: RvalueView, operand: MirValue) -> bool {
    takes(value, operand) || match value {
        RvalueView::ArrayLit { elements, .. } => elements.contains(operand),
        RvalueView::OwnNew { value, .. } => value == operand,
        RvalueView::SharedNew { value, .. } => value == operand,
        _ => false,
    }
}

proof fn moved_operands_are_gone(
    state: LowerState,
    operands: Seq<MirValue>,
    i: int,
    source: LocalId,
)
    requires
        0 <= i,
        (source.0 as int) < state.states.len(),
    ensures
        ({
            let after = state.moving_operands(operands, i);
            &&& state.state_of(source) == Some(LocalState::Moved) ==> after.state_of(source)
                == Some(LocalState::Moved)
            &&& state.is_droppable(source) && (exists|k: int|
                i <= k < operands.len() && #[trigger] operands[k] == MirValue::Local(source))
                ==> after.state_of(source) == Some(LocalState::Moved)
        }),
    decreases operands.len() - i,
{
    if i < operands.len() {
        let next = match operands[i] {
            MirValue::Local(local) => if state.is_droppable(local) {
                state.with_state(local, LocalState::Moved)
            } else {
                state
            },
            _ => state,
        };
        assert(next.locals == state.locals);
        moved_operands_are_gone(next, operands, i + 1, source);
        if state.is_droppable(source) && (exists|k: int|
            i <= k < operands.len() && #[trigger] operands[k] == MirValue::Local(source)) {
            let k = choose|k: int|
                i <= k < operands.len() && #[trigger] operands[k] == MirValue::Local(source);
            if k == i {
                assert(next.state_of(source) == Some(LocalState::Moved));
            } else {
                assert(i + 1 <= k);
            }
        }
    }
}

/// The state of an assignment just before ownership is passed on.
spec fn before_transfer(state: LowerState, local: LocalId, value: RvalueView) -> LowerState {
    let bound = state.rejecting_arc_storage(value).rejecting_loan_storage(
        value,
    ).rejecting_guard_storage(local, value).without_arc_loan(local).without_loans_of(
        local,
    ).binding_value(local, value);
    bound.reassigning(local).binding_locks(local, value).with_state(local, LocalState::Initialized)
}

proof fn before_transfer_locals_stay(state: LowerState, local: LocalId, value: RvalueView)
    ensures
        before_transfer(state, local, value).locals == state.locals,
        before_transfer(state, local, value).states.len() == state.states.len(),
{
    checks_keep_the_outline(state, local, value);
    let cleared = state.rejecting_arc_storage(value).rejecting_loan_storage(
        value,
    ).rejecting_guard_storage(local, value).without_arc_loan(local).without_loans_of(local);
    bound_values_keep_the_outline(cleared, local, value);
    drops_keep_the_outline(cleared.binding_value(local, value), local);
}

/// A value that needs cleanup and is put into a container that owns its contents is
/// gone from its local.
pub proof fn contained_values_are_gone(
    state: LowerState,
    local: LocalId,
    value: RvalueView,
    source: LocalId,
)
    requires
        takes(value, MirValue::Local(source)),
        state.is_droppable(source),
        (source.0 as int) < state.states.len(),
    ensures
        state.assigned(local, value).state_of(source) == Some(LocalState::Moved),
{
    reveal(LowerState::pushed);
    let ready = before_transfer(state, local, value);
    before_transfer_locals_stay(state, local, value);
    let operands = owned_operands(value);
    let start = if value is VecPush {
        ready.with_state(local, LocalState::Moved)
    } else {
        ready
    };
    match value {
        RvalueView::StructLit { field_values, .. } => {
            let k = choose|k: int|
                0 <= k < field_values.len() && (#[trigger] field_values[k]).1 == MirValue::Local(
                    source,
                );
            assert(operands[k] == MirValue::Local(source));
        },
        RvalueView::MapAdd { key, value, .. } => {
            assert(operands[0] == key && operands[1] == value);
        },
        RvalueView::MapUpdate { key, value, .. } => {
            assert(operands[0] == key && operands[1] == value);
        },
        _ => {
            assert(operands[0] == MirValue::Local(source));
        },
    }
    moved_operands_are_gone(start, operands, 0, source);
}

/// A moved value is gone from where it was, and is where it was moved to.
pub proof fn moved_values_change_their_place(state: LowerState, local: LocalId, source: LocalId)
    requires
        (source.0 as int) < state.states.len(),
        (local.0 as int) < state.states.len(),
        source != local,
    ensures
        state.assigned(local, RvalueView::Move(source)).state_of(source) == Some(
            LocalState::Moved,
        ),
        state.uses_ownership_tracking(source) ==> state.assigned(
            local,
            RvalueView::Move(source),
        ).state_of(local) == Some(LocalState::Initialized),
{
    reveal(LowerState::pushed);
    before_transfer_locals_stay(state, local, RvalueView::Move(source));
}

/// A call that takes its callee, a handle that is taken apart and an item that is
/// sent leave nothing in their locals.
pub proof fn spent_values_are_gone(
    state: LowerState,
    local: LocalId,
    value: RvalueView,
    source: LocalId,
)
    requires
        (source.0 as int) < state.states.len(),
        match value {
            RvalueView::CallIndirect { callee, .. } => callee == source,
            RvalueView::ThreadHandleIntoRaw { handle } => handle == source,
            RvalueView::SpscTrySend { value: sent, .. } => sent == source,
            _ => false,
        },
    ensures
        state.assigned(local, value).state_of(source) == Some(LocalState::Moved),
{
    reveal(LowerState::pushed);
    before_transfer_locals_stay(state, local, value);
}

proof fn fewer_arc_loans_find_less(loans: Seq<(u32, ArcLoan)>, key: u32, owner: LocalId)
    requires
        arc_loan_on(loans, owner, 0) is None,
    ensures
        arc_loan_on(without_key(loans, key), owner, 0) is None,
{
    let left = without_key(loans, key);
    key_position_is_first(loans, key, 0);
    no_arc_loan_on_an_owner(loans, owner, 0);
    no_arc_loan_on_an_owner(left, owner, 0);
    assert forall|j: int| 0 <= j < left.len() implies (#[trigger] left[j]).1.owner != owner by {
        if left.len() == loans.len() {
            assert(left[j] == loans[j]);
        } else {
            assert(left[j] == loans[j] || left[j] == loans[j + 1]);
        }
    }
}

proof fn no_arc_loan_on_an_owner(loans: Seq<(u32, ArcLoan)>, owner: LocalId, i: int)
    requires
        0 <= i,
    ensures
        arc_loan_on(loans, owner, i) is None <==> forall|j: int|
            i <= j < loans.len() ==> (#[trigger] loans[j]).1.owner != owner,
    decreases loans.len() - i,
{
    if i < loans.len() {
        no_arc_loan_on_an_owner(loans, owner, i + 1);
        if loans[i].1.owner != owner && arc_loan_on(loans, owner, i) is None {
            assert forall|j: int| i <= j < loans.len() implies (#[trigger] loans[j]).1.owner
                != owner by {
                if j > i {
                    assert(arc_loan_on(loans, owner, i + 1) is None);
                }
            }
        }
    }
}

/// A local that nothing keeps where it is loses its old value before it gets the
/// new one: the old one is dropped if it needs that, and then the assignment stands.
pub proof fn old_values_are_dropped_first(state: LowerState, local: LocalId, value: RvalueView)
    requires
        state.is_open(),
        state.has_local(local),
        state.states.len() == state.locals.len(),
        state.is_movable(local),
        value is ConstInt || value is ConstBool || value is StringLit || value is Binary
            || value is Call || value is VecNew || value is MapNew || value is StringClone
            || value is StringConcat || value is ArcClone || value is SharedClone,
    ensures
        ({
            let after = state.assigned(local, value);
            let inst = MirInstView::Assign { local, value };
            let replaced = state.state_of(local) == Some(LocalState::Initialized)
                && state.is_droppable(local) && !state.skips_drop(local);
            &&& replaced ==> after.current_insts() == state.current_insts().push(
                MirInstView::Drop(local),
            ).push(inst)
            &&& !replaced ==> after.current_insts() == state.current_insts().push(inst)
            &&& after.state_of(local) == Some(LocalState::Initialized)
        }),
{
    reveal(LowerState::pushed);
    assert(stored_operands(value) =~= Seq::empty());
    let checked = state.rejecting_arc_storage(value).rejecting_loan_storage(
        value,
    ).rejecting_guard_storage(local, value);
    assert(checked == state);
    let cleared = state.without_arc_loan(local).without_loans_of(local);
    assert(cleared.is_movable(local)) by {
        forgetting_frees_only(state, local, local);
        if arc_loan_on(state.arc_loans, local, 0) is None {
            fewer_arc_loans_find_less(state.arc_loans, local.0, local);
        }
        assert(cleared.loans == state.without_lock(local).loans);
    }
    assert(cleared.is_open());
    let replaced = cleared.reassigning(local);
    if state.state_of(local) == Some(LocalState::Initialized) && state.is_droppable(local)
        && !state.skips_drop(local) {
        assert(replaced.current_insts() =~= state.current_insts().push(MirInstView::Drop(local)));
    } else {
        assert(replaced == cleared);
    }
}

impl LowerState {
    /// Whether a later state differs in what was reported only, and nothing that
    /// was reported is taken back.
    pub open spec fn reports_more(self, later: LowerState) -> bool {
        &&& later == (LowerState { diagnostics: later.diagnostics, ..self })
        &&& self.diagnostics.is_prefix_of(later.diagnostics)
    }
}

proof fn stored_arcs_are_reported(
    state: LowerState,
    stored: Seq<(MirValue, Seq<char>)>,
    i: int,
)
    requires
        0 <= i,
    ensures
        state.reports_more(state.rejecting_stored_arcs(stored, i)),
    decreases stored.len() - i,
{
    if i < stored.len() {
        let next = match state.arc_loan_of(stored[i].0) {
            Some(loan) => state.error(
                "an Arc::borrow() reference cannot be stored in "@ + stored[i].1
                    + "; keep it in a direct lexical binding"@,
                Some(loan.origin),
            ),
            None => state,
        };
        stored_arcs_are_reported(next, stored, i + 1);
    }
}

proof fn stored_loans_are_reported(
    state: LowerState,
    stored: Seq<(MirValue, Seq<char>)>,
    i: int,
)
    requires
        0 <= i,
    ensures
        state.reports_more(state.rejecting_stored_loans(stored, i)),
        (exists|k: int|
            i <= k < stored.len() && state.is_borrowed_operand((#[trigger] stored[k]).0))
            ==> state.rejecting_stored_loans(stored, i).diagnostics.len()
            > state.diagnostics.len(),
    decreases stored.len() - i,
{
    if i < stored.len() {
        let next = state.rejecting_stored_loan(stored[i].0, stored[i].1);
        stored_loans_are_reported(next, stored, i + 1);
        if exists|k: int|
            i <= k < stored.len() && state.is_borrowed_operand((#[trigger] stored[k]).0) {
            let k = choose|k: int|
                i <= k < stored.len() && state.is_borrowed_operand((#[trigger] stored[k]).0);
            if k > i {
                assert(next.is_borrowed_operand(stored[k].0));
            }
        }
    }
}

proof fn stored_guards_are_reported(
    state: LowerState,
    stored: Seq<(MirValue, Seq<char>)>,
    i: int,
)
    requires
        0 <= i,
    ensures
        state.reports_more(state.rejecting_stored_guards(stored, i)),
        (exists|k: int|
            i <= k < stored.len() && state.is_guarded_operand((#[trigger] stored[k]).0))
            ==> state.rejecting_stored_guards(stored, i).diagnostics.len()
            > state.diagnostics.len(),
    decreases stored.len() - i,
{
    if i < stored.len() {
        let next = if state.is_guarded_operand(stored[i].0) {
            state.error(
                "MutexGuard cannot be stored in "@ + stored[i].1
                    + "; keep it in a direct lexical binding"@,
                None,
            )
        } else {
            state
        };
        stored_guards_are_reported(next, stored, i + 1);
        if exists|k: int|
            i <= k < stored.len() && state.is_guarded_operand((#[trigger] stored[k]).0) {
            let k = choose|k: int|
                i <= k < stored.len() && state.is_guarded_operand((#[trigger] stored[k]).0);
            if k > i {
                assert(next.is_guarded_operand(stored[k].0));
            }
        }
    }
}

proof fn stores_are_listed(value: RvalueView, operand: MirValue) -> (k: int)
    requires
        stores(value, operand),
    ensures
        0 <= k < stored_operands(value).len(),
        stored_operands(value)[k].0 == operand,
{
    let stored = stored_operands(value);
    match value {
        RvalueView::StructLit { field_values, .. } => {
            let k = choose|k: int|
                0 <= k < field_values.len() && (#[trigger] field_values[k]).1 == operand;
            assert(stored[k].0 == operand);
            k
        },
        RvalueView::ArrayLit { elements, .. } => {
            let k = choose|k: int| 0 <= k < elements.len() && elements[k] == operand;
            assert(stored[k].0 == operand);
            k
        },
        RvalueView::MapAdd { key, .. } => if key == operand {
            0
        } else {
            1
        },
        RvalueView::MapUpdate { key, .. } => if key == operand {
            0
        } else {
            1
        },
        _ => 0,
    }
}

/// Nothing that is stored may depend on a place or on a lock: storing a borrowed
/// reference, a borrowed callable, a guard or a reference into a guard is reported.
/// Only the option that a tried lock gives may hold the guard.
pub proof fn stored_borrows_and_guards_are_reported(
    state: LowerState,
    local: LocalId,
    value: RvalueView,
    source: LocalId,
)
    requires
        stores(value, MirValue::Local(source)),
        state.holds_loan(source) || (state.is_guarded_operand(MirValue::Local(source)) && !(
        value is EnumConstruct && state.try_lock_options.contains(local.0))),
    ensures
        state.assigned(local, value).diagnostics.len() > state.diagnostics.len(),
{
    reveal(LowerState::pushed);
    let operand = MirValue::Local(source);
    let stored = stored_operands(value);
    let k = stores_are_listed(value, operand);
    let arcs = state.rejecting_arc_storage(value);
    stored_arcs_are_reported(state, stored, 0);
    assert(state.reports_more(arcs));
    let loans = arcs.rejecting_loan_storage(value);
    stored_loans_are_reported(arcs, stored, 0);
    let guards = loans.rejecting_guard_storage(local, value);
    stored_guards_are_reported(loans, stored, 0);
    if state.holds_loan(source) {
        assert(arcs.is_borrowed_operand(stored[k].0));
    } else {
        assert(loans.is_guarded_operand(stored[k].0));
    }
    assert(guards.diagnostics.len() > state.diagnostics.len());
    let cleared = guards.without_arc_loan(local).without_loans_of(local);
    assert(cleared.binding_value(local, value) == cleared);
    let replaced = cleared.reassigning(local);
    assert(replaced.diagnostics.len() >= cleared.diagnostics.len());
    let ready = replaced.binding_locks(local, value).with_state(local, LocalState::Initialized);
    assert(ready.diagnostics == replaced.diagnostics);
    moved_operands_report_nothing(ready, owned_operands(value), 0);
    moved_operands_report_nothing(
        ready.with_state(local, LocalState::Moved),
        owned_operands(value),
        0,
    );
}

proof fn moved_operands_report_nothing(state: LowerState, operands: Seq<MirValue>, i: int)
    ensures
        state.moving_operands(operands, i).diagnostics == state.diagnostics,
    decreases operands.len() - i,
{
    if 0 <= i < operands.len() {
        let next = match operands[i] {
            MirValue::Local(local) => if state.is_droppable(local) {
                state.with_state(local, LocalState::Moved)
            } else {
                state
            },
            _ => state,
        };
        moved_operands_report_nothing(next, operands, i + 1);
    }
}

/// Nothing that depends on a place or on a lock may be returned: that is reported.
pub proof fn returned_borrows_and_guards_are_reported(
    state: LowerState,
    source: LocalId,
    span: Span,
)
    ensures
        state.holds_loan(source) ==> state.rejecting_returned_loan(
            Some(MirValue::Local(source)),
            span,
        ).diagnostics.len() == state.diagnostics.len() + 1,
        state.is_guarded_operand(MirValue::Local(source)) ==> state.rejecting_returned_guard(
            Some(MirValue::Local(source)),
            span,
        ).diagnostics.len() == state.diagnostics.len() + 1,
        state.rejecting_returned_loan(None, span) == state,
        state.rejecting_returned_guard(None, span) == state,
{
}

/// Values of types that hold a guard, and locals that know of a lock, count as
/// guarded; locals that hold a loan count as borrowed.
pub proof fn locks_and_loans_make_values_dependent(
    state: LowerState,
    reference: LocalId,
    owner: LocalId,
    origin: Span,
)
    ensures
        state.registering_guard(reference, owner, origin).is_guarded_operand(
            MirValue::Local(reference),
        ),
        state.registering_guard_borrow(reference, owner, origin).is_guarded_operand(
            MirValue::Local(reference),
        ),
{
    reveal(LowerState::registering_guard);
    reveal(LowerState::registering_guard_borrow);
    let guard = state.registering_guard(reference, owner, origin);
    let lent = state.registering_guard_borrow(reference, owner, origin);
    key_position_is_first(state.locks, reference.0, 0);
    key_position_is_first(guard.locks, reference.0, 0);
    key_position_is_first(state.guard_borrows, reference.0, 0);
    key_position_is_first(lent.guard_borrows, reference.0, 0);
    match key_position(state.locks, reference.0, 0) {
        Some(p) => {
            assert(guard.locks[p].0 == reference.0);
        },
        None => {
            assert(guard.locks[state.locks.len() as int].0 == reference.0);
        },
    }
    match key_position(state.guard_borrows, reference.0, 0) {
        Some(p) => {
            assert(lent.guard_borrows[p].0 == reference.0);
        },
        None => {
            assert(lent.guard_borrows[state.guard_borrows.len() as int].0 == reference.0);
        },
    }
}

} // verus!
