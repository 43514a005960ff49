//! What a borrow reaches, and which local a declaration was given.

use vstd::prelude::*;

use crate::diag::Span;
use crate::lower::state::{bound_before, held_by, reserved_loans, HeldLoan, LexicalLoan, LowerState};
use crate::mir::{BorrowKind, LocalId};

verus! {

proof fn one_more_loan_is_held(
    loans: Seq<HeldLoan>,
    more: HeldLoan,
    holder: LocalId,
    i: int,
)
    requires
        0 <= i <= loans.len(),
    ensures
        held_by(loans.push(more), holder, i) == (if more.holder == holder {
            held_by(loans, holder, i).push(more.loan)
        } else {
            held_by(loans, holder, i)
        }),
    decreases loans.len() - i,
{
    let all = loans.push(more);
    if i < loans.len() {
        one_more_loan_is_held(loans, more, holder, i + 1);
        assert(all[i] == loans[i]);
        let rest = held_by(loans, holder, i + 1);
        if loans[i].holder == holder && more.holder == holder {
            assert(seq![loans[i].loan] + rest.push(more.loan) =~= (seq![loans[i].loan]
                + rest).push(more.loan));
        }
    } else {
        assert(all[i] == more);
        reveal_with_fuel(held_by, 2);
        assert(held_by(all, holder, i + 1) =~= Seq::empty());
        assert(seq![more.loan] + Seq::<LexicalLoan>::empty() =~= Seq::empty().push(more.loan));
    }
}

/// A borrow through a reference reaches what the reference was borrowed from: as soon
/// as a local holds a loan, borrowing it means borrowing the owner. Other locals reach
/// what they reached before, and a local without a loan is its own owner.
pub proof fn reborrows_reach_the_owner(
    state: LowerState,
    holder: LocalId,
    base: LocalId,
    kind: BorrowKind,
    origin: Span,
    other: LocalId,
)
    requires
        !state.holds_loan(holder),
        state.borrow_conflict(state.loan_root(base), kind) is None,
    ensures
        ({
            let lent = state.registering_loan(holder, base, kind, origin);
            &&& lent.holds_loan(holder)
            &&& lent.loan_root(holder) == state.loan_root(base)
            &&& other != holder ==> lent.loan_root(other) == state.loan_root(other)
            &&& !state.holds_loan(other) ==> state.loan_root(other) == other
        }),
{
    let lent = state.registering_loan(holder, base, kind, origin);
    let more = lent.loans[state.loans.len() as int];
    assert(lent.loans == state.loans.push(more));
    assert(more.holder == holder && more.loan.owner == state.loan_root(base));
    one_more_loan_is_held(state.loans, more, holder, 0);
    one_more_loan_is_held(state.loans, more, other, 0);
}

/// A declaration is given the local that was registered for it last.
pub proof fn declarations_find_their_latest_local(
    bindings: Seq<(Seq<char>, Span, LocalId)>,
    name: Seq<char>,
    span: Span,
    i: int,
)
    requires
        0 <= i <= bindings.len(),
    ensures
        match bound_before(bindings, name, span, i) {
            Some(local) => exists|p: int|
                0 <= p < i && (#[trigger] bindings[p]) == (name, span, local) && forall|j: int|
                    p < j < i ==> (#[trigger] bindings[j]).0 != name || bindings[j].1 != span,
            None => forall|j: int|
                0 <= j < i ==> (#[trigger] bindings[j]).0 != name || bindings[j].1 != span,
        },
    decreases i,
{
    if i > 0 {
        if bindings[i - 1].0 == name && bindings[i - 1].1 == span {
            assert(bindings[i - 1] == (name, span, bindings[i - 1].2));
        } else {
            declarations_find_their_latest_local(bindings, name, span, i - 1);
            if bound_before(bindings, name, span, i) is Some {
                let local = bound_before(bindings, name, span, i)->0;
                let p = choose|p: int|
                    0 <= p < i - 1 && (#[trigger] bindings[p]) == (name, span, local) && forall|
                        j: int,
                    |
                        p < j < i - 1 ==> (#[trigger] bindings[j]).0 != name || bindings[j].1
                            != span;
                assert(bindings[p] == (name, span, local));
            }
        }
    }
}

/// What a scoped task borrowed stays lent until its scope is drained: the scope holds
/// each of the task's loans.
pub proof fn scopes_keep_the_loans_of_their_tasks(
    state: LowerState,
    scope: LocalId,
    task: LocalId,
    k: int,
)
    requires
        0 <= k < held_by(state.loans, task, 0).len(),
    ensures
        ({
            let after = state.reserving(scope, task);
            let loan = held_by(state.loans, task, 0)[k];
            &&& exists|j: int|
                0 <= j < after.reservations.len() && (#[trigger] after.reservations[j]).holder
                    == scope && after.reservations[j].loan == loan
            &&& state.reservations.is_prefix_of(after.reservations)
        }),
{
    let after = state.reserving(scope, task);
    let loans = held_by(state.loans, task, 0);
    let n = state.reservations.len() as int;
    assert(after.reservations == state.reservations + reserved_loans(loans, scope));
    assert(after.reservations[n + k] == reserved_loans(loans, scope)[k]);
    assert(state.reservations =~= after.reservations.subrange(0, n));
}

} // verus!
