//! What holds of lowering as a whole.

use vstd::prelude::*;

use crate::diag::{error_view, Span};
use crate::lower::state::{
    arc_loan_on, guard_borrow_on, held_by_others, loan_on, lock_on, ArcLoan, HeldLoan, LocalState,
    LowerState, MutexGuardBorrow, MutexLoan,
};
use crate::lower::values::placeholder;
use crate::mir::{BorrowKind, LocalId, MirValue};
use crate::table::{key_position, key_position_is_first};
use crate::types::TypeView;

verus! {

/// Whether a held loan answers a search.
spec fn answers(held: HeldLoan, owner: LocalId, exclusive: bool) -> bool {
    held.loan.owner == owner && (exclusive ==> held.loan.kind == BorrowKind::Mutable)
}

/// A search finds a loan exactly where one answers it.
proof fn loan_search_is_complete(loans: Seq<HeldLoan>, owner: LocalId, exclusive: bool, i: int)
    requires
        0 <= i,
    ensures
        loan_on(loans, owner, exclusive, i) is Some <==> exists|j: int|
            i <= j < loans.len() && answers(#[trigger] loans[j], owner, exclusive),
    decreases loans.len() - i,
{
    if i < loans.len() {
        loan_search_is_complete(loans, owner, exclusive, i + 1);
        if answers(loans[i], owner, exclusive) {
        } else if loan_on(loans, owner, exclusive, i + 1) is Some {
            let j = choose|j: int|
                i + 1 <= j < loans.len() && answers(#[trigger] loans[j], owner, exclusive);
            assert(answers(loans[j], owner, exclusive));
        }
    }
}

/// An exclusive loan forbids every other borrow of its owner, and a shared one
/// every exclusive borrow; either keeps the owner from being moved, dropped or
/// reassigned without a report.
pub proof fn live_loans_exclude_conflicting_borrows(
    state: LowerState,
    holder: LocalId,
    base: LocalId,
    kind: BorrowKind,
    origin: Span,
    other: BorrowKind,
)
    requires
        state.borrow_conflict(state.loan_root(base), kind) is None,
    ensures
        ({
            let owner = state.loan_root(base);
            let lent = state.registering_loan(holder, base, kind, origin);
            &&& kind == BorrowKind::Mutable || other == BorrowKind::Mutable
                ==> lent.borrow_conflict(owner, other) is Some
            &&& kind == BorrowKind::Shared && other == BorrowKind::Shared
                ==> lent.borrow_conflict(owner, other) is None
            &&& !lent.is_movable(owner)
            &&& kind == BorrowKind::Mutable ==> !lent.is_available(owner)
        }),
{
    reveal(LowerState::is_available);
    let owner = state.loan_root(base);
    let lent = state.registering_loan(holder, base, kind, origin);
    let last = state.loans.len() as int;
    assert(lent.loans.len() == last + 1);
    assert(lent.loans[last].loan.owner == owner && lent.loans[last].loan.kind == kind);
    loan_search_is_complete(lent.loans, owner, false, 0);
    assert(answers(lent.loans[last], owner, false));
    loan_search_is_complete(lent.loans, owner, true, 0);
    if kind == BorrowKind::Mutable {
        assert(answers(lent.loans[last], owner, true));
    } else {
        loan_search_is_complete(state.loans, owner, true, 0);
        if loan_on(lent.loans, owner, true, 0) is Some {
            let j = choose|j: int|
                0 <= j < lent.loans.len() && answers(#[trigger] lent.loans[j], owner, true);
            assert(j < last);
            assert(state.loans[j] == lent.loans[j]);
            assert(answers(state.loans[j], owner, true));
        }
    }
}

/// Releasing a holder removes exactly its loans.
pub(crate) proof fn releasing_keeps_the_others(loans: Seq<HeldLoan>, holder: LocalId, i: int)
    requires
        0 <= i,
    ensures
        forall|j: int|
            0 <= j < held_by_others(loans, holder, i).len() ==> (#[trigger] held_by_others(
                loans,
                holder,
                i,
            )[j]).holder != holder && exists|k: int|
                i <= k < loans.len() && #[trigger] loans[k] == held_by_others(loans, holder, i)[j],
    decreases loans.len() - i,
{
    if i < loans.len() {
        releasing_keeps_the_others(loans, holder, i + 1);
        let rest = held_by_others(loans, holder, i + 1);
        let whole = held_by_others(loans, holder, i);
        assert forall|j: int| 0 <= j < whole.len() implies (#[trigger] whole[j]).holder != holder
            && exists|k: int| i <= k < loans.len() && #[trigger] loans[k] == whole[j] by {
            if loans[i].holder == holder {
                assert(whole[j] == rest[j]);
                let k = choose|k: int| i + 1 <= k < loans.len() && #[trigger] loans[k] == rest[j];
                assert(loans[k] == whole[j]);
            } else if j == 0 {
                assert(loans[i] == whole[0]);
            } else {
                assert(whole[j] == rest[j - 1]);
                let k = choose|k: int|
                    i + 1 <= k < loans.len() && #[trigger] loans[k] == rest[j - 1];
                assert(loans[k] == whole[j]);
            }
        }
    }
}

/// A loan ends with its holder: once the only holder of loans on an owner is
/// released, nothing forbids a borrow of the owner.
pub proof fn loans_end_with_their_holder(
    state: LowerState,
    holder: LocalId,
    owner: LocalId,
    kind: BorrowKind,
)
    requires
        forall|i: int|
            0 <= i < state.loans.len() ==> (#[trigger] state.loans[i]).loan.owner == owner
                ==> state.loans[i].holder == holder,
        loan_on(state.reservations, owner, kind == BorrowKind::Shared, 0) is None,
    ensures
        state.without_loans_of(holder).borrow_conflict(owner, kind) is None,
{
    let exclusive = kind == BorrowKind::Shared;
    let left = held_by_others(state.loans, holder, 0);
    releasing_keeps_the_others(state.loans, holder, 0);
    loan_search_is_complete(left, owner, exclusive, 0);
    if loan_on(left, owner, exclusive, 0) is Some {
        let j = choose|j: int| 0 <= j < left.len() && answers(#[trigger] left[j], owner, exclusive);
        let k = choose|k: int| 0 <= k < state.loans.len() && #[trigger] state.loans[k] == left[j];
        assert(state.loans[k].holder == holder);
        assert(left[j].holder != holder);
    }
}

/// A lock search finds a lock exactly where one is held.
proof fn lock_search_is_complete(locks: Seq<(u32, MutexLoan)>, owner: LocalId, i: int)
    requires
        0 <= i,
    ensures
        lock_on(locks, owner, i) is Some <==> exists|j: int|
            i <= j < locks.len() && (#[trigger] locks[j]).1.owner == owner,
    decreases locks.len() - i,
{
    if i < locks.len() {
        lock_search_is_complete(locks, owner, i + 1);
        if locks[i].1.owner != owner && lock_on(locks, owner, i + 1) is Some {
            let j = choose|j: int|
                i + 1 <= j < locks.len() && (#[trigger] locks[j]).1.owner == owner;
            assert(locks[j].1.owner == owner);
        }
    }
}

/// While a guard is live, its mutex cannot be moved, dropped or reassigned.
pub proof fn live_guards_keep_their_mutex(
    state: LowerState,
    holder: LocalId,
    owner: LocalId,
    origin: Span,
)
    ensures
        !state.registering_guard(holder, owner, origin).is_movable(owner),
{
    reveal(LowerState::registering_guard);
    let locked = state.registering_guard(holder, owner, origin);
    key_position_is_first(state.locks, holder.0, 0);
    match key_position(state.locks, holder.0, 0) {
        Some(p) => {
            assert(locked.locks[p].1.owner == owner);
        },
        None => {
            assert(locked.locks[state.locks.len() as int].1.owner == owner);
        },
    }
    lock_search_is_complete(locked.locks, owner, 0);
}

/// A search for references borrowed from a guard is complete.
proof fn guard_borrow_search_is_complete(
    borrows: Seq<(u32, MutexGuardBorrow)>,
    guard: LocalId,
    i: int,
)
    requires
        0 <= i,
    ensures
        guard_borrow_on(borrows, guard, i) is Some <==> exists|j: int|
            i <= j < borrows.len() && (#[trigger] borrows[j]).1.guard == guard,
    decreases borrows.len() - i,
{
    if i < borrows.len() {
        guard_borrow_search_is_complete(borrows, guard, i + 1);
        if borrows[i].1.guard != guard && guard_borrow_on(borrows, guard, i + 1) is Some {
            let j = choose|j: int|
                i + 1 <= j < borrows.len() && (#[trigger] borrows[j]).1.guard == guard;
            assert(borrows[j].1.guard == guard);
        }
    }
}

/// While a reference borrowed from a guard is live, the guard cannot be moved,
/// dropped or reassigned.
pub proof fn live_references_keep_their_guard(
    state: LowerState,
    reference: LocalId,
    guard: LocalId,
    origin: Span,
)
    ensures
        !state.registering_guard_borrow(reference, guard, origin).is_movable(guard),
{
    reveal(LowerState::registering_guard_borrow);
    let lent = state.registering_guard_borrow(reference, guard, origin);
    key_position_is_first(state.guard_borrows, reference.0, 0);
    match key_position(state.guard_borrows, reference.0, 0) {
        Some(p) => {
            assert(lent.guard_borrows[p].1.guard == guard);
        },
        None => {
            assert(lent.guard_borrows[state.guard_borrows.len() as int].1.guard == guard);
        },
    }
    guard_borrow_search_is_complete(lent.guard_borrows, guard, 0);
}

/// A search for `Arc` loans is complete.
proof fn arc_search_is_complete(loans: Seq<(u32, ArcLoan)>, owner: LocalId, i: int)
    requires
        0 <= i,
    ensures
        arc_loan_on(loans, owner, i) is Some <==> exists|j: int|
            i <= j < loans.len() && (#[trigger] loans[j]).1.owner == owner,
    decreases loans.len() - i,
{
    if i < loans.len() {
        arc_search_is_complete(loans, owner, i + 1);
        if loans[i].1.owner != owner && arc_loan_on(loans, owner, i + 1) is Some {
            let j = choose|j: int|
                i + 1 <= j < loans.len() && (#[trigger] loans[j]).1.owner == owner;
            assert(loans[j].1.owner == owner);
        }
    }
}

/// While a reference from `Arc::borrow()` is live, its owner cannot be moved,
/// dropped or reassigned.
pub proof fn live_arc_borrows_keep_their_owner(
    state: LowerState,
    reference: LocalId,
    owner: LocalId,
    origin: Span,
)
    requires
        state.local_type(owner) matches Some(ty) && ty.is_arc(),
    ensures
        state.registering_arc_borrow(reference, owner, origin).arc_conflict(owner) is Some,
        !state.registering_arc_borrow(reference, owner, origin).is_movable(owner),
{
    reveal(LowerState::registering_arc_borrow);
    let lent = state.registering_loan(reference, owner, BorrowKind::Shared, origin);
    let held = state.registering_arc_borrow(reference, owner, origin);
    assert(lent.locals == state.locals);
    key_position_is_first(lent.arc_loans, reference.0, 0);
    match key_position(lent.arc_loans, reference.0, 0) {
        Some(p) => {
            assert(held.arc_loans[p].1.owner == owner);
        },
        None => {
            assert(held.arc_loans[lent.arc_loans.len() as int].1.owner == owner);
        },
    }
    arc_search_is_complete(held.arc_loans, owner, 0);
}

/// A value that was moved out of its local is not available there any more, and
/// cannot be moved out a second time.
pub proof fn moved_values_are_gone(state: LowerState, local: LocalId, span: Option<Span>)
    requires
        state.is_consumable(local),
        state.uses_ownership_tracking(local),
        !state.skips_drop(local),
    ensures
        !state.consuming(local, span).is_available(local),
        !state.consuming(local, span).is_consumable(local),
{
    reveal(LowerState::is_consumable);
    reveal(LowerState::is_available);
    reveal(LowerState::consuming);
    if state.needs_drop(local) {
        crate::lower::kinds::moved_types_are_dropped(state.local_type(local)->Some_0);
    }
}

/// The cleanup of a local that nothing keeps runs exactly once: a second one
/// changes nothing.
pub proof fn cleanup_runs_once(state: LowerState, local: LocalId)
    requires
        state.is_movable(local),
    ensures
        ({
            let cleaned = state.dropping_if_needed(local);
            cleaned.dropping_if_needed(local) == cleaned
        }),
{
    let cleaned = state.dropping_if_needed(local);
    if state.state_of(local) == Some(LocalState::Initialized) {
        if cleaned != state {
            assert(cleaned.state_of(local) == Some(LocalState::Moved));
        }
    }
}

/// A task without a provenance certificate does not start: `spawn` reports why
/// the boundary is closed and emits no instruction for it.
pub proof fn uncertified_tasks_do_not_start(
    state: LowerState,
    value: MirValue,
    task_type: TypeView,
    result: TypeView,
    span: Span,
)
    requires
        !state.localizing(value, task_type).provenance.contains_key(state.localized(value).0),
    ensures
        ({
            let ready = state.localizing(value, task_type);
            let verdict = ready.task_verdict(state.localized(value), task_type, result);
            let (after, outcome) = state.spawning_task(value, task_type, result, span);
            &&& verdict is Err
            &&& outcome == placeholder()
            &&& after.blocks == ready.blocks
            &&& after.diagnostics == ready.diagnostics.push(
                error_view(verdict->Err_0.text(), Some(span)),
            )
        }),
{
}

} // verus!
