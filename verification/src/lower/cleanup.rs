//! What is cleaned up, when, and in which order.

use vstd::prelude::*;

use crate::lower::laws::releasing_keeps_the_others;
use crate::lower::outline::{
    draining_appends, drains, ended_loans_keep_the_blocks, ended_loans_keep_the_outline,
    released_scopes_keep_the_outline, uncovering_restores_bindings,
};
use crate::lower::state::{
    guard_borrow_on, held_by_others, loan_on, lock_on, tasks_of_others, HeldLoan, LocalState,
    LowerState, MutexGuardBorrow, MutexLoan,
};
use crate::mir::{LocalId, MirInstView};
use crate::table::{key_position_is_first, without_key};

verus! {

impl LowerState {
    /// Whether a local owns something at this point that nobody else cleans up.
    pub open spec fn is_owner(self, local: LocalId) -> bool {
        &&& self.state_of(local) == Some(LocalState::Initialized)
        &&& !self.skips_drop(local)
        &&& self.thread_handles.contains(local.0) || self.scoped_handles.contains(local.0)
            || self.is_droppable(local)
    }

    /// Whether two states agree on which locals own something.
    pub open spec fn same_owners(self, other: LowerState) -> bool {
        &&& other.states == self.states
        &&& other.locals == self.locals
        &&& other.thread_handles == self.thread_handles
        &&& other.scoped_handles == self.scoped_handles
    }

    /// The instruction that gives up what a local owns: threads that are still
    /// running are let go, other values are dropped.
    pub open spec fn cleanup(self, local: LocalId) -> MirInstView {
        if self.thread_handles.contains(local.0) {
            MirInstView::DropThreadHandle(local)
        } else if self.scoped_handles.contains(local.0) {
            MirInstView::DropScopedThreadHandle(local)
        } else {
            MirInstView::Drop(local)
        }
    }

    /// The cleanup of the owners among the first `n` locals, the last one first.
    pub open spec fn cleanups(self, locals: Seq<LocalId>, n: int) -> Seq<MirInstView>
        decreases n,
    {
        if n <= 0 || n > locals.len() {
            Seq::empty()
        } else {
            let later = if self.is_owner(locals[n - 1]) {
                seq![self.cleanup(locals[n - 1])]
            } else {
                Seq::empty()
            };
            later + self.cleanups(locals, n - 1)
        }
    }

    /// The cleanup of the scopes from `depth` to before position `n`, the innermost
    /// one first.
    pub open spec fn scope_cleanups(self, scopes: Seq<Seq<LocalId>>, depth: int, n: int) -> Seq<
        MirInstView,
    >
        decreases n,
    {
        if n <= depth || n <= 0 || n > scopes.len() {
            Seq::empty()
        } else {
            self.cleanups(scopes[n - 1], scopes[n - 1].len() as int) + self.scope_cleanups(
                scopes,
                depth,
                n - 1,
            )
        }
    }
}

/// No local is listed twice.
pub open spec fn listed_once(locals: Seq<LocalId>) -> bool {
    forall|i: int, j: int|
        0 <= i < j < locals.len() ==> #[trigger] locals[i] != #[trigger] locals[j]
}

/// No local is listed in two scopes, nor twice in one.
pub open spec fn scoped_once(scopes: Seq<Seq<LocalId>>) -> bool {
    &&& forall|s: int| 0 <= s < scopes.len() ==> listed_once(#[trigger] scopes[s])
    &&& forall|s: int, t: int, i: int, j: int|
        0 <= s < t < scopes.len() && 0 <= i < scopes[s].len() && 0 <= j < scopes[t].len()
            ==> #[trigger] scopes[s][i] != #[trigger] scopes[t][j]
}

/// A local that nothing keeps where it is gets exactly the cleanup that its kind
/// of value needs, if it owns something, and none otherwise.
pub proof fn owners_are_cleaned_up(state: LowerState, local: LocalId)
    requires
        state.is_open(),
        state.is_movable(local),
    ensures
        ({
            let after = state.dropping_if_needed(local);
            &&& state.is_owner(local) ==> after.current_insts() == state.current_insts().push(
                state.cleanup(local),
            ) && after.state_of(local) == Some(LocalState::Moved)
            &&& !state.is_owner(local) ==> after == state
        }),
{
    let after = state.dropping_if_needed(local);
    if state.is_owner(local) {
        assert(after.current_insts() =~= state.current_insts().push(state.cleanup(local)));
    }
}

proof fn fewer_loans_find_less(loans: Seq<HeldLoan>, holder: LocalId, owner: LocalId)
    requires
        loan_on(loans, owner, false, 0) is None,
    ensures
        loan_on(held_by_others(loans, holder, 0), owner, false, 0) is None,
{
    releasing_keeps_the_others(loans, holder, 0);
    let left = held_by_others(loans, holder, 0);
    nothing_on_an_owner(loans, owner, 0);
    assert forall|j: int| 0 <= j < left.len() implies (#[trigger] left[j]).loan.owner != owner by {
        let k = choose|k: int| 0 <= k < loans.len() && #[trigger] loans[k] == left[j];
        assert(loans[k].loan.owner != owner);
    }
    nothing_on_an_owner(left, owner, 0);
}

proof fn nothing_on_an_owner(loans: Seq<HeldLoan>, owner: LocalId, i: int)
    requires
        0 <= i,
    ensures
        loan_on(loans, owner, false, i) is None <==> forall|j: int|
            i <= j < loans.len() ==> (#[trigger] loans[j]).loan.owner != owner,
    decreases loans.len() - i,
{
    if i < loans.len() {
        nothing_on_an_owner(loans, owner, i + 1);
        if loans[i].loan.owner != owner && loan_on(loans, owner, false, i) is None {
            assert forall|j: int| i <= j < loans.len() implies (#[trigger] loans[j]).loan.owner
                != owner by {
                if j > i {
                    assert(loan_on(loans, owner, false, i + 1) is None);
                }
            }
        }
    }
}

proof fn no_lock_on_an_owner(locks: Seq<(u32, MutexLoan)>, owner: LocalId, i: int)
    requires
        0 <= i,
    ensures
        lock_on(locks, owner, i) is None <==> forall|j: int|
            i <= j < locks.len() ==> (#[trigger] locks[j]).1.owner != owner,
    decreases locks.len() - i,
{
    if i < locks.len() {
        no_lock_on_an_owner(locks, owner, i + 1);
        if locks[i].1.owner != owner && lock_on(locks, owner, i) is None {
            assert forall|j: int| i <= j < locks.len() implies (#[trigger] locks[j]).1.owner
                != owner by {
                if j > i {
                    assert(lock_on(locks, owner, i + 1) is None);
                }
            }
        }
    }
}

proof fn no_borrow_of_a_guard(borrows: Seq<(u32, MutexGuardBorrow)>, guard: LocalId, i: int)
    requires
        0 <= i,
    ensures
        guard_borrow_on(borrows, guard, i) is None <==> forall|j: int|
            i <= j < borrows.len() ==> (#[trigger] borrows[j]).1.guard != guard,
    decreases borrows.len() - i,
{
    if i < borrows.len() {
        no_borrow_of_a_guard(borrows, guard, i + 1);
        if borrows[i].1.guard != guard && guard_borrow_on(borrows, guard, i) is None {
            assert forall|j: int| i <= j < borrows.len() implies (#[trigger] borrows[j]).1.guard
                != guard by {
                if j > i {
                    assert(guard_borrow_on(borrows, guard, i + 1) is None);
                }
            }
        }
    }
}

proof fn fewer_entries<W>(entries: Seq<(u32, W)>, key: u32)
    ensures
        forall|j: int|
            0 <= j < without_key(entries, key).len() ==> entries.contains(
                #[trigger] without_key(entries, key)[j],
            ),
{
    key_position_is_first(entries, key, 0);
    let left = without_key(entries, key);
    assert forall|j: int| 0 <= j < left.len() implies entries.contains(#[trigger] left[j]) by {
        if left.len() == entries.len() {
            assert(left[j] == entries[j]);
        } else {
            assert(left[j] == entries[j] || left[j] == entries[j + 1]);
        }
    }
}

/// What a local knew of loans and locks keeps nothing in place once it is
/// forgotten.
pub proof fn forgetting_frees_only(state: LowerState, gone: LocalId, local: LocalId)
    requires
        state.is_movable(local),
    ensures
        state.without_lock(gone).is_movable(local),
{
    let after = state.without_lock(gone);
    fewer_loans_find_less(state.loans, gone, local);
    fewer_entries(state.locks, gone.0);
    no_lock_on_an_owner(state.locks, local, 0);
    no_lock_on_an_owner(after.locks, local, 0);
    assert forall|j: int| 0 <= j < after.locks.len() implies (#[trigger] after.locks[j]).1.owner
        != local by {
        let k = choose|k: int| 0 <= k < state.locks.len() && state.locks[k] == after.locks[j];
        assert(state.locks.contains(after.locks[j]));
        assert(state.locks[k].1.owner != local);
    }
    fewer_entries(state.guard_borrows, gone.0);
    no_borrow_of_a_guard(state.guard_borrows, local, 0);
    no_borrow_of_a_guard(after.guard_borrows, local, 0);
    assert forall|j: int| 0 <= j < after.guard_borrows.len() implies (
    #[trigger] after.guard_borrows[j]).1.guard != local by {
        assert(state.guard_borrows.contains(after.guard_borrows[j]));
        let k = choose|k: int|
            0 <= k < state.guard_borrows.len() && state.guard_borrows[k]
                == after.guard_borrows[j];
        assert(state.guard_borrows[k].1.guard != local);
    }
}

proof fn one_cleanup_leaves_the_others(state: LowerState, local: LocalId, other: LocalId)
    requires
        state.is_open(),
        state.is_movable(local),
        state.is_movable(other),
        other != local,
    ensures
        ({
            let after = state.dropping_if_needed(local).without_lock(local);
            &&& after.is_movable(other)
            &&& after.is_owner(other) == state.is_owner(other)
            &&& after.cleanup(other) == state.cleanup(other)
        }),
{
    let dropped = state.dropping_if_needed(local);
    if state.is_owner(local) && !state.thread_handles.contains(local.0)
        && !state.scoped_handles.contains(local.0) {
        forgetting_frees_only(state, local, other);
        let inside = state.emitted_inside(MirInstView::Drop(local)).with_state(
            local,
            LocalState::Moved,
        );
        assert(dropped == inside.without_lock(local));
    }
    assert(dropped.is_movable(other));
    forgetting_frees_only(dropped, local, other);
}

proof fn cleanups_look_at_owners_only(
    state: LowerState,
    later: LowerState,
    locals: Seq<LocalId>,
    n: int,
)
    requires
        forall|j: int|
            0 <= j < n && j < locals.len() ==> later.is_owner(#[trigger] locals[j])
                == state.is_owner(locals[j]) && later.cleanup(locals[j]) == state.cleanup(
                locals[j],
            ),
    ensures
        later.cleanups(locals, n) == state.cleanups(locals, n),
    decreases n,
{
    if 0 < n <= locals.len() {
        assert(later.is_owner(locals[n - 1]) == state.is_owner(locals[n - 1]));
        cleanups_look_at_owners_only(state, later, locals, n - 1);
    }
}

/// The locals of a scope that nothing keeps where they are get their cleanup one
/// after the other, the last one first, and nothing else happens in the code.
/// Locals that are not listed keep what they own.
pub proof fn scopes_are_cleaned_up_backwards(state: LowerState, locals: Seq<LocalId>, n: int)
    requires
        state.is_open(),
        listed_once(locals),
        0 <= n <= locals.len(),
        forall|j: int| 0 <= j < n ==> state.is_movable(#[trigger] locals[j]),
    ensures
        ({
            let after = state.dropping_before(locals, n);
            &&& after.current_insts() == state.current_insts() + state.cleanups(locals, n)
            &&& after.is_open()
            &&& after.current == state.current
            &&& forall|j: int|
                0 <= j < n ==> !after.is_owner(#[trigger] locals[j])
            &&& forall|other: LocalId|
                !locals.take(n).contains(other) ==> {
                    &&& #[trigger] after.is_owner(other) == state.is_owner(other)
                    &&& after.cleanup(other) == state.cleanup(other)
                    &&& state.is_movable(other) ==> after.is_movable(other)
                }
        }),
    decreases n,
{
    let after = state.dropping_before(locals, n);
    if n == 0 {
        assert(state.current_insts() + state.cleanups(locals, n) =~= state.current_insts());
    } else {
        let local = locals[n - 1];
        let dropped = state.dropping_if_needed(local);
        let next = dropped.without_lock(local);
        owners_are_cleaned_up(state, local);
        assert(next.blocks == dropped.blocks);
        assert(next.is_open());
        assert forall|j: int| 0 <= j < n - 1 implies next.is_movable(#[trigger] locals[j])
            && next.is_owner(locals[j]) == state.is_owner(locals[j]) && next.cleanup(locals[j])
            == state.cleanup(locals[j]) by {
            one_cleanup_leaves_the_others(state, local, locals[j]);
        }
        scopes_are_cleaned_up_backwards(next, locals, n - 1);
        cleanups_look_at_owners_only(state, next, locals, n - 1);
        assert(after.current_insts() =~= state.current_insts() + state.cleanups(locals, n));
        assert(!next.is_owner(local));
        assert(!locals.take(n - 1).contains(local)) by {
            if locals.take(n - 1).contains(local) {
                let fewer = locals.take(n - 1);
                let k = choose|k: int| 0 <= k < fewer.len() && fewer[k] == local;
                assert(locals[k] == local);
            }
        }
        assert(after.is_owner(local) == next.is_owner(local));
        assert forall|other: LocalId| !locals.take(n).contains(other) implies {
            &&& #[trigger] after.is_owner(other) == state.is_owner(other)
            &&& after.cleanup(other) == state.cleanup(other)
            &&& state.is_movable(other) ==> after.is_movable(other)
        } by {
            assert(locals.take(n)[n - 1] == local);
            assert(other != local);
            if locals.take(n - 1).contains(other) {
                let fewer = locals.take(n - 1);
                let k = choose|k: int| 0 <= k < fewer.len() && fewer[k] == other;
                assert(locals.take(n)[k] == other);
            }
            assert(after.is_owner(other) == next.is_owner(other));
            assert(next.is_owner(other) == state.is_owner(other));
            if state.is_movable(other) {
                one_cleanup_leaves_the_others(state, local, other);
            }
        }
    }
}

proof fn scopes_look_at_owners_only(
    state: LowerState,
    later: LowerState,
    scopes: Seq<Seq<LocalId>>,
    depth: int,
    n: int,
)
    requires
        0 <= depth,
        forall|s: int, i: int|
            depth <= s < n && s < scopes.len() && 0 <= i < scopes[s].len() ==> later.is_owner(
                #[trigger] scopes[s][i],
            ) == state.is_owner(scopes[s][i]) && later.cleanup(scopes[s][i]) == state.cleanup(
                scopes[s][i],
            ),
    ensures
        later.scope_cleanups(scopes, depth, n) == state.scope_cleanups(scopes, depth, n),
    decreases n,
{
    if depth < n <= scopes.len() {
        let locals = scopes[n - 1];
        assert forall|j: int| 0 <= j < locals.len() implies later.is_owner(#[trigger] locals[j])
            == state.is_owner(locals[j]) && later.cleanup(locals[j]) == state.cleanup(
            locals[j],
        ) by {
            assert(locals[j] == scopes[n - 1][j]);
        }
        cleanups_look_at_owners_only(state, later, locals, locals.len() as int);
        scopes_look_at_owners_only(state, later, scopes, depth, n - 1);
    }
}

proof fn nested_scopes_are_cleaned_up(
    state: LowerState,
    scopes: Seq<Seq<LocalId>>,
    depth: int,
    n: int,
)
    requires
        state.is_open(),
        scoped_once(scopes),
        0 <= depth,
        n <= scopes.len(),
        forall|s: int, i: int|
            depth <= s < n && 0 <= i < scopes[s].len() ==> state.is_movable(
                #[trigger] scopes[s][i],
            ),
    ensures
        state.dropping_scopes(scopes, depth, n).current_insts() == state.current_insts()
            + state.scope_cleanups(scopes, depth, n),
    decreases n,
{
    if depth < n {
        let locals = scopes[n - 1];
        let len = locals.len() as int;
        assert forall|j: int| 0 <= j < len implies state.is_movable(#[trigger] locals[j]) by {
            assert(locals[j] == scopes[n - 1][j]);
        }
        scopes_are_cleaned_up_backwards(state, locals, len);
        let next = state.dropping_before(locals, len);
        assert forall|s: int, i: int|
            depth <= s < n - 1 && 0 <= i < scopes[s].len() implies next.is_movable(
            #[trigger] scopes[s][i],
        ) && next.is_owner(scopes[s][i]) == state.is_owner(scopes[s][i]) && next.cleanup(
            scopes[s][i],
        ) == state.cleanup(scopes[s][i]) by {
            let local = scopes[s][i];
            assert(!locals.take(len).contains(local)) by {
                if locals.take(len).contains(local) {
                    let all = locals.take(len);
                    let k = choose|k: int| 0 <= k < all.len() && all[k] == local;
                    assert(scopes[n - 1][k] == scopes[s][i]);
                }
            }
            assert(next.is_owner(local) == state.is_owner(local));
        }
        nested_scopes_are_cleaned_up(next, scopes, depth, n - 1);
        scopes_look_at_owners_only(state, next, scopes, depth, n - 1);
        assert(state.current_insts() + state.cleanups(locals, len) + state.scope_cleanups(
            scopes,
            depth,
            n - 1,
        ) =~= state.current_insts() + state.scope_cleanups(scopes, depth, n));
    } else {
        assert(state.current_insts() + state.scope_cleanups(scopes, depth, n)
            =~= state.current_insts());
    }
}

proof fn waiting_keeps_owners(state: LowerState, scopes: Seq<LocalId>, i: int)
    ensures
        state.same_owners(state.draining_from(scopes, i)),
        state.draining_from(scopes, i).hidden == state.hidden,
    decreases scopes.len() - i,
{
    if 0 <= i < scopes.len() {
        let next = LowerState {
            reservations: held_by_others(state.reservations, scopes[i], 0),
            fn_mut_tasks: tasks_of_others(state.fn_mut_tasks, scopes[i], 0),
            ..state
        }.emitted_inside(MirInstView::DrainThreadScope(scopes[i]));
        waiting_keeps_owners(next, scopes, i + 1);
    }
}

proof fn ended_loans_keep_owners(state: LowerState, holders: Seq<LocalId>, i: int)
    ensures
        state.same_owners(state.without_arc_loans(holders, i)),
        state.same_owners(state.without_loans(holders, i)),
    decreases holders.len() - i,
{
    if 0 <= i < holders.len() {
        ended_loans_keep_owners(state.without_arc_loan(holders[i]), holders, i + 1);
        ended_loans_keep_owners(state.without_loans_of(holders[i]), holders, i + 1);
    }
}

proof fn released_scopes_keep_owners(state: LowerState, scopes: Seq<Seq<LocalId>>, i: int)
    ensures
        state.same_owners(state.releasing_scopes(scopes, i)),
    decreases scopes.len() - i,
{
    if 0 <= i < scopes.len() {
        ended_loans_keep_owners(state, scopes[i], 0);
        let freed = state.without_arc_loans(scopes[i], 0);
        ended_loans_keep_owners(freed, scopes[i], 0);
        released_scopes_keep_owners(freed.without_loans(scopes[i], 0), scopes, i + 1);
    }
}

/// Whoever jumps out of several scopes, or returns, leaves nothing behind: the open
/// thread scopes are waited for, then every local of these scopes that still owns
/// something is cleaned up, the latest one first, and nothing else runs.
pub proof fn leaving_scopes_cleans_them_up(state: LowerState, depth: int)
    requires
        state.is_open(),
        scoped_once(state.scopes),
        0 <= depth < state.scopes.len(),
        forall|s: int, i: int|
            depth <= s < state.scopes.len() && 0 <= i < state.scopes[s].len()
                ==> state.draining().releasing_scopes(state.scopes, depth).is_movable(
                #[trigger] state.scopes[s][i],
            ),
    ensures
        ({
            let left = state.current_insts() + drains(state.callback_scopes)
                + state.scope_cleanups(state.scopes, depth, state.scopes.len() as int);
            &&& state.dropping_after_depth(depth).current_insts() == left
            &&& depth == 0 ==> state.dropping_all().current_insts() == left
        }),
{
    let scopes = state.scopes;
    let n = scopes.len() as int;
    let drained = state.draining();
    draining_appends(state, state.callback_scopes, 0);
    assert(state.callback_scopes.skip(0) =~= state.callback_scopes);
    waiting_keeps_owners(state, state.callback_scopes, 0);
    released_scopes_keep_the_outline(drained, scopes, depth);
    released_scopes_keep_owners(drained, scopes, depth);
    let released = drained.releasing_scopes(scopes, depth);
    assert(released.is_open());
    nested_scopes_are_cleaned_up(released, scopes, depth, n);
    assert forall|s: int, i: int|
        depth <= s < n && 0 <= i < scopes[s].len() implies released.is_owner(
        #[trigger] scopes[s][i],
    ) == state.is_owner(scopes[s][i]) && released.cleanup(scopes[s][i]) == state.cleanup(
        scopes[s][i],
    ) by {
    }
    scopes_look_at_owners_only(state, released, scopes, depth, n);
}

/// The end of a scope leaves nothing behind: the open thread scopes are waited for,
/// then every local of the scope that still owns something is cleaned up, the
/// latest one first, and nothing else runs.
pub proof fn the_end_of_a_scope_cleans_up(state: LowerState)
    requires
        state.is_open(),
        state.scopes.len() > 1,
        listed_once(state.scopes.last()),
        forall|i: int|
            0 <= i < state.scopes.last().len() ==> state.draining().without_arc_loans(
                state.scopes.last(),
                0,
            ).without_loans(state.scopes.last(), 0).is_movable(#[trigger] state.scopes.last()[i]),
    ensures
        state.exiting_scope().current_insts() == state.current_insts() + drains(
            state.callback_scopes,
        ) + state.cleanups(state.scopes.last(), state.scopes.last().len() as int),
{
    let locals = state.scopes.last();
    let n = locals.len() as int;
    let drained = state.draining();
    draining_appends(state, state.callback_scopes, 0);
    assert(state.callback_scopes.skip(0) =~= state.callback_scopes);
    waiting_keeps_owners(state, state.callback_scopes, 0);
    let left = LowerState { scopes: drained.scopes.drop_last(), ..drained };
    freed_scopes_differ_in_scopes_only(drained, left.scopes, locals);
    ended_loans_keep_the_outline(left, locals, 0);
    ended_loans_keep_the_blocks(left, locals, 0);
    ended_loans_keep_owners(left, locals, 0);
    let freed = left.without_arc_loans(locals, 0);
    ended_loans_keep_the_outline(freed, locals, 0);
    ended_loans_keep_the_blocks(freed, locals, 0);
    ended_loans_keep_owners(freed, locals, 0);
    let released = freed.without_loans(locals, 0);
    assert(released.is_open());
    assert forall|i: int| 0 <= i < n implies released.is_movable(#[trigger] locals[i]) by {
        assert(drained.without_arc_loans(locals, 0).without_loans(locals, 0).is_movable(
            state.scopes.last()[i],
        ));
    }
    scopes_are_cleaned_up_backwards(released, locals, n);
    cleanups_look_at_owners_only(state, released, locals, n);
    let cleaned = released.dropping_before(locals, n);
    if cleaned.hidden.len() > 0 {
        let hidden = cleaned.hidden.last();
        let rest = LowerState { hidden: cleaned.hidden.drop_last(), ..cleaned };
        uncovering_restores_bindings(rest, hidden, hidden.len() as int);
    }
}

proof fn freed_scopes_differ_in_scopes_only(
    state: LowerState,
    scopes: Seq<Seq<LocalId>>,
    locals: Seq<LocalId>,
)
    ensures
        ({
            let other = LowerState { scopes, ..state };
            other.without_arc_loans(locals, 0).without_loans(locals, 0) == (LowerState {
                scopes,
                ..state.without_arc_loans(locals, 0).without_loans(locals, 0)
            })
        }),
{
    freed_arcs_differ_in_scopes_only(state, scopes, locals, 0);
    freed_loans_differ_in_scopes_only(state.without_arc_loans(locals, 0), scopes, locals, 0);
}

proof fn freed_arcs_differ_in_scopes_only(
    state: LowerState,
    scopes: Seq<Seq<LocalId>>,
    locals: Seq<LocalId>,
    i: int,
)
    ensures
        (LowerState { scopes, ..state }).without_arc_loans(locals, i) == (LowerState {
            scopes,
            ..state.without_arc_loans(locals, i)
        }),
    decreases locals.len() - i,
{
    if 0 <= i < locals.len() {
        freed_arcs_differ_in_scopes_only(state.without_arc_loan(locals[i]), scopes, locals, i + 1);
    }
}

proof fn freed_loans_differ_in_scopes_only(
    state: LowerState,
    scopes: Seq<Seq<LocalId>>,
    locals: Seq<LocalId>,
    i: int,
)
    ensures
        (LowerState { scopes, ..state }).without_loans(locals, i) == (LowerState {
            scopes,
            ..state.without_loans(locals, i)
        }),
    decreases locals.len() - i,
{
    if 0 <= i < locals.len() {
        freed_loans_differ_in_scopes_only(state.without_loans_of(locals[i]), scopes, locals, i + 1);
    }
}

} // verus!
