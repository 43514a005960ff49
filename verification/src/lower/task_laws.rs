//! What tasks may borrow, where returned closures come from, and how loans and
//! locks pass from one local to another.

use vstd::prelude::*;

use crate::ast::Function;
use crate::closure_analysis::{function_analysis, ClosureInfoView};
use crate::diag::Span;
use crate::lower::safety::SafetyTypingView;
use crate::lower::setup::{
    all_resolved, is_returned, is_scope_token, resolved_types, returned_from,
};
use crate::lower::state::{
    held_by, typed_captures, HeldLoan, LexicalLoan, LowerState,
};
use crate::mir::{BorrowKind, LocalId};
use crate::table::{
    stored_values_are_found, tables_read_back_what_was_stored, unique_keys, value_of,
};
use crate::thread_safety::{
    checks_decide_safety, is_safe, SendProvenanceView, ThreadSafetyRequirement,
};
use crate::types::TypeView;

verus! {

/// The type of what a loan on a local gives access to.
pub open spec fn lent_type(state: LowerState, owner: LocalId) -> TypeView {
    match state.local_type(owner) {
        Some(TypeView::Ref(inner, _)) => *inner,
        Some(ty) => ty,
        None => TypeView::Void,
    }
}

/// What is known of types once those behind the loans from position `i` to before
/// `k` were met.
pub open spec fn typing_before(
    state: LowerState,
    typing: SafetyTypingView,
    loans: Seq<LexicalLoan>,
    i: int,
    k: int,
) -> SafetyTypingView
    decreases k - i,
{
    if i >= k {
        typing
    } else {
        typing_before(
            state,
            typing.after_typing(lent_type(state, loans[i].owner)),
            loans,
            i + 1,
            k,
        )
    }
}

/// Whether what a loan gives access to may be used by a task: it is no token of a
/// thread scope, and another thread may see it, or have it if the loan is exclusive.
pub open spec fn may_be_lent(
    state: LowerState,
    typing: SafetyTypingView,
    loan: LexicalLoan,
) -> bool {
    let ty = lent_type(state, loan.owner);
    !is_scope_token(ty) && is_safe(
        typing.after_typing(ty).registry,
        typing.safety_type(ty),
        if loan.kind == BorrowKind::Mutable {
            ThreadSafetyRequirement::Send
        } else {
            ThreadSafetyRequirement::Sync
        },
    )
}

proof fn accepted_loans_may_be_lent(
    state: LowerState,
    loans: Seq<LexicalLoan>,
    span: Span,
    i: int,
    k: int,
)
    requires
        0 <= i <= k < loans.len(),
        state.checking_captures(loans, span, i).1,
    ensures
        may_be_lent(state, typing_before(state, state.safety, loans, i, k), loans[k]),
    decreases k - i,
{
    let ty = lent_type(state, loans[i].owner);
    let requirement = if loans[i].kind == BorrowKind::Mutable {
        ThreadSafetyRequirement::Send
    } else {
        ThreadSafetyRequirement::Sync
    };
    let root = if loans[i].kind == BorrowKind::Mutable {
        "mutable scoped capture"@
    } else {
        "shared scoped capture"@
    };
    checks_decide_safety(
        state.after_typing(ty).safety.registry,
        state.safety.safety_type(ty),
        requirement,
        root,
    );
    let next = state.after_typing(ty);
    assert(next.checking_captures(loans, span, i + 1).1);
    if i < k {
        accepted_loans_may_be_lent(next, loans, span, i + 1, k);
        same_locals_lend_the_same(state, next, state.safety.after_typing(ty), loans, i + 1, k);
        assert(lent_type(next, loans[k].owner) == lent_type(state, loans[k].owner));
    }
}

proof fn same_locals_lend_the_same(
    state: LowerState,
    later: LowerState,
    typing: SafetyTypingView,
    loans: Seq<LexicalLoan>,
    i: int,
    k: int,
)
    requires
        later.locals == state.locals,
    ensures
        typing_before(later, typing, loans, i, k) == typing_before(state, typing, loans, i, k),
    decreases k - i,
{
    if i < k {
        assert(lent_type(later, loans[i].owner) == lent_type(state, loans[i].owner));
        same_locals_lend_the_same(
            state,
            later,
            typing.after_typing(lent_type(state, loans[i].owner)),
            loans,
            i + 1,
            k,
        );
    }
}

/// A scoped task is accepted only if everything that it borrowed may be used by
/// another thread: shared loans ask for what may be shared, exclusive ones for what
/// may be handed over.
pub proof fn accepted_tasks_borrow_what_may_cross(
    state: LowerState,
    task: LocalId,
    span: Span,
    k: int,
)
    requires
        state.checking_task(task, span).1,
        0 <= k < held_by(state.loans, task, 0).len(),
    ensures
        ({
            let loans = held_by(state.loans, task, 0);
            may_be_lent(state, typing_before(state, state.safety, loans, 0, k), loans[k])
        }),
{
    accepted_loans_may_be_lent(state, held_by(state.loans, task, 0), span, 0, k);
}

proof fn refused_loans_are_reported(
    state: LowerState,
    loans: Seq<LexicalLoan>,
    span: Span,
    i: int,
)
    requires
        0 <= i,
    ensures
        ({
            let (after, accepted) = state.checking_captures(loans, span, i);
            &&& after.diagnostics.len() >= state.diagnostics.len()
            &&& accepted ==> after.diagnostics == state.diagnostics
            &&& !accepted ==> after.diagnostics.len() > state.diagnostics.len()
            &&& after.blocks == state.blocks
        }),
    decreases loans.len() - i,
{
    if i < loans.len() {
        let ty = lent_type(state, loans[i].owner);
        let message =
            "a scoped task cannot capture Scope or ScopedJoinHandle; nested spawn from a worker is not supported"@;
        refused_loans_are_reported(state.error(message, Some(span)), loans, span, i + 1);
        refused_loans_are_reported(state.after_typing(ty), loans, span, i + 1);
        if let Err(error) = state.capture_verdict(loans[i]) {
            refused_loans_are_reported(
                state.after_typing(ty).error(error.text(), Some(span)),
                loans,
                span,
                i + 1,
            );
        }
    }
}

/// A scoped task is refused with a report, and accepted without one. A task whose
/// origin is not known is refused.
pub proof fn refused_tasks_are_reported(state: LowerState, task: LocalId, span: Span)
    ensures
        ({
            let (after, accepted) = state.checking_task(task, span);
            &&& accepted <==> after.diagnostics == state.diagnostics
            &&& !accepted ==> after.diagnostics.len() > state.diagnostics.len()
            &&& after.blocks == state.blocks
            &&& !state.holds_loan(task) && !state.borrowed_callables.contains(task.0)
                ==> !accepted
        }),
{
    refused_loans_are_reported(state, held_by(state.loans, task, 0), span, 0);
}

proof fn returned_closures_are_found(closures: Seq<ClosureInfoView>, i: int)
    requires
        0 <= i,
    ensures
        forall|k: int|
            i <= k < closures.len() && is_returned(#[trigger] closures[k]) ==> returned_from(
                closures,
                i,
            ).contains(k),
        forall|j: int|
            0 <= j < returned_from(closures, i).len() ==> i <= (#[trigger] returned_from(
                closures,
                i,
            )[j]) < closures.len() && is_returned(closures[returned_from(closures, i)[j]]),
        forall|a: int, b: int|
            0 <= a < b < returned_from(closures, i).len() ==> #[trigger] returned_from(
                closures,
                i,
            )[a] != #[trigger] returned_from(closures, i)[b],
    decreases closures.len() - i,
{
    if i < closures.len() {
        returned_closures_are_found(closures, i + 1);
        let rest = returned_from(closures, i + 1);
        let all = returned_from(closures, i);
        if is_returned(closures[i]) {
            assert(all[0] == i);
            assert forall|j: int| 1 <= j < all.len() implies #[trigger] all[j] == rest[j - 1] by {
            }
            assert forall|k: int|
                i <= k < closures.len() && is_returned(#[trigger] closures[k]) implies all.contains(
                k,
            ) by {
                if k > i {
                    assert(rest.contains(k));
                    let j = choose|j: int| 0 <= j < rest.len() && rest[j] == k;
                    assert(all[j + 1] == k);
                }
            }
        } else {
            assert(all == rest);
        }
    }
}

proof fn every_capture_is_typed(
    safety: SafetyTypingView,
    captures: Seq<(Seq<char>, TypeView)>,
    i: int,
)
    requires
        0 <= i <= captures.len(),
    ensures
        ({
            let parts = typed_captures(safety, captures, i).0;
            &&& parts.len() == captures.len() - i
            &&& forall|k: int|
                0 <= k < parts.len() ==> (#[trigger] parts[k]).name == captures[i + k].0
            &&& i < captures.len() ==> parts[0].ty == safety.safety_type(captures[i].1)
        }),
    decreases captures.len() - i,
{
    if i < captures.len() {
        let next = safety.after_typing(captures[i].1);
        every_capture_is_typed(next, captures, i + 1);
        let rest = typed_captures(next, captures, i + 1).0;
        let parts = typed_captures(safety, captures, i).0;
        assert(parts[0].name == captures[i].0);
        assert forall|k: int| 0 <= k < parts.len() implies (#[trigger] parts[k]).name
            == captures[i + k].0 by {
            if k > 0 {
                assert(parts[k] == rest[k - 1]);
                assert(captures[(i + 1) + (k - 1)] == captures[i + k]);
            }
        }
    }
}

/// A function that returns one closure passes on what the closure captured, each
/// capture with its name and type, as far as their types are known; one that returns
/// several closures, or none, promises nothing.
pub proof fn returned_closures_pass_on_their_captures(
    state: LowerState,
    function: Function,
    k: int,
)
    ensures
        ({
            let closures = function_analysis(state.resolver@, function).closures;
            let after = state.certifying(function);
            let only = 0 <= k < closures.len() && is_returned(closures[k]) && forall|j: int|
                0 <= j < closures.len() && j != k ==> !is_returned(#[trigger] closures[j]);
            &&& only && all_resolved(closures[k].captures) ==> {
                &&& value_of(after.return_provenance, function.name.0@) matches Some(
                    SendProvenanceView::OwnedClosure { captures, .. },
                )
                &&& captures.len() == closures[k].captures.len()
                &&& forall|j: int|
                    0 <= j < captures.len() ==> (#[trigger] captures[j]).name
                        == closures[k].captures[j].name
                &&& captures.len() > 0 ==> Some(captures[0].ty) == Some(
                    state.safety.safety_type(closures[k].captures[0].resolved_type->Some_0),
                )
            }
            &&& only && !all_resolved(closures[k].captures) ==> (value_of(
                after.return_provenance,
                function.name.0@,
            ) matches Some(SendProvenanceView::Unknown { .. }))
            &&& (forall|j: int|
                0 <= j < closures.len() ==> !is_returned(#[trigger] closures[j])) ==> after == state
            &&& 0 <= k < closures.len() && is_returned(closures[k]) && (exists|j: int|
                0 <= j < closures.len() && j != k && is_returned(#[trigger] closures[j])) ==> after
                == state
        }),
{
    let closures = function_analysis(state.resolver@, function).closures;
    let returned = returned_from(closures, 0);
    returned_closures_are_found(closures, 0);
    if 0 <= k < closures.len() && is_returned(closures[k]) {
        assert(returned.contains(k));
        let a = choose|a: int| 0 <= a < returned.len() && returned[a] == k;
        if forall|j: int| 0 <= j < closures.len() && j != k ==> !is_returned(#[trigger] closures[j]) {
            assert(is_returned(closures[returned[0]]));
            assert(returned[0] == k);
            if returned.len() > 1 {
                assert(is_returned(closures[returned[1]]));
                assert(returned[1] == k);
            }
            let closure = closures[k];
            let types = resolved_types(closure.captures);
            every_capture_is_typed(state.safety, types, 0);
            let after = state.certifying(function);
            assert(after == state.certifying_closure(function.name.0@, closure));
            if all_resolved(closure.captures) {
                let (captures, _) = typed_captures(state.safety, types, 0);
                assert forall|j: int| 0 <= j < captures.len() implies (#[trigger] captures[j]).name
                    == closure.captures[j].name by {
                    assert(captures[j].name == types[0 + j].0);
                }
                stored_values_are_found(
                    state.return_provenance,
                    function.name.0@,
                    SendProvenanceView::OwnedClosure {
                        origin: function.name.0@ + "::__glyph_closure_"@
                            + crate::text::decimal_text(closure.closure_id as nat),
                        captures,
                    },
                );
            } else {
                stored_values_are_found(
                    state.return_provenance,
                    function.name.0@,
                    SendProvenanceView::Unknown {
                        reason: "returned closure from '"@ + function.name.0@
                            + "' has an unresolved capture layout"@,
                    },
                );
            }
        }
        if exists|j: int| 0 <= j < closures.len() && j != k && is_returned(#[trigger] closures[j]) {
            let j = choose|j: int|
                0 <= j < closures.len() && j != k && is_returned(#[trigger] closures[j]);
            assert(returned.contains(j));
            let b = choose|b: int| 0 <= b < returned.len() && returned[b] == j;
            assert(a != b);
        }
    }
    if forall|j: int| 0 <= j < closures.len() ==> !is_returned(#[trigger] closures[j]) {
        if returned.len() > 0 {
            assert(is_returned(closures[returned[0]]));
        }
    }
}

/// A borrow or a lock that would outlive its owner is reported, and only that is.
pub proof fn holders_must_not_outlive_owners(
    state: LowerState,
    holder: LocalId,
    base: LocalId,
    kind: BorrowKind,
    origin: Span,
)
    requires
        state.borrow_conflict(state.loan_root(base), kind) is None,
    ensures
        state.registering_loan(holder, base, kind, origin).diagnostics.len()
            == state.diagnostics.len() + (if state.depth_of(state.loan_root(base), 0)
            > state.depth_of(holder, 0) {
            1int
        } else {
            0
        }),
        state.registering_guard(holder, base, origin).diagnostics.len() == state.diagnostics.len()
            + (if state.depth_of(base, 0) > state.depth_of(holder, 0) {
            1int
        } else {
            0
        }),
{
    reveal(LowerState::registering_guard);
}

/// Passing a reference on shares its shared loans with the destination, and reports
/// its exclusive ones.
pub proof fn shared_loans_are_passed_on(
    state: LowerState,
    loans: Seq<LexicalLoan>,
    destination: LocalId,
    i: int,
    k: int,
)
    requires
        0 <= i <= k < loans.len(),
    ensures
        ({
            let after = state.sharing_loans(loans, destination, i);
            &&& after.diagnostics.len() >= state.diagnostics.len()
            &&& loans[k].kind == BorrowKind::Mutable ==> after.diagnostics.len()
                > state.diagnostics.len()
            &&& loans[k].kind == BorrowKind::Shared ==> exists|j: int|
                0 <= j < after.loans.len() && (#[trigger] after.loans[j]).holder == destination
                    && after.loans[j].loan.owner == loans[k].owner && after.loans[j].loan.kind
                    == BorrowKind::Shared
        }),
    decreases k - i,
{
    let loan = loans[i];
    let depth = state.depth_of(destination, 0);
    let message = "an FnMut or mutable reference cannot be aliased; pass it directly or create a shorter reborrow"@;
    let escape = "a borrowed reference or callable cannot escape the lexical scope where its loan was created"@;
    let next = if loan.kind == BorrowKind::Mutable {
        state.error(message, Some(loan.origin))
    } else {
        let checked = if depth < loan.creation_scope {
            state.error(escape, Some(loan.origin))
        } else {
            state
        };
        LowerState {
            loans: checked.loans.push(
                HeldLoan {
                    holder: destination,
                    loan: LexicalLoan { creation_scope: depth, ..loan },
                },
            ),
            ..checked
        }
    };
    let after = state.sharing_loans(loans, destination, i);
    assert(after == next.sharing_loans(loans, destination, i + 1));
    loans_are_only_added(next, loans, destination, i + 1);
    if i < k {
        shared_loans_are_passed_on(next, loans, destination, i + 1, k);
    } else if loan.kind == BorrowKind::Shared {
        assert(after.loans[state.loans.len() as int] == next.loans[state.loans.len() as int]);
    }
}

proof fn loans_are_only_added(
    state: LowerState,
    loans: Seq<LexicalLoan>,
    destination: LocalId,
    i: int,
)
    ensures
        ({
            let after = state.sharing_loans(loans, destination, i);
            &&& after.diagnostics.len() >= state.diagnostics.len()
            &&& after.loans.len() >= state.loans.len()
            &&& forall|j: int|
                0 <= j < state.loans.len() ==> #[trigger] after.loans[j] == state.loans[j]
        }),
    decreases loans.len() - i,
{
    if 0 <= i < loans.len() {
        let loan = loans[i];
        let depth = state.depth_of(destination, 0);
        let message = "an FnMut or mutable reference cannot be aliased; pass it directly or create a shorter reborrow"@;
        let escape = "a borrowed reference or callable cannot escape the lexical scope where its loan was created"@;
        let next = if loan.kind == BorrowKind::Mutable {
            state.error(message, Some(loan.origin))
        } else {
            let checked = if depth < loan.creation_scope {
                state.error(escape, Some(loan.origin))
            } else {
                state
            };
            LowerState {
                loans: checked.loans.push(
                    HeldLoan {
                        holder: destination,
                        loan: LexicalLoan { creation_scope: depth, ..loan },
                    },
                ),
                ..checked
            }
        };
        loans_are_only_added(next, loans, destination, i + 1);
        let after = next.sharing_loans(loans, destination, i + 1);
        assert forall|j: int| 0 <= j < state.loans.len() implies #[trigger] after.loans[j]
            == state.loans[j] by {
            assert(after.loans[j] == next.loans[j]);
        }
    }
}

/// A guard that is moved takes its lock along: the lock is on the same mutex, and
/// the source holds none any more. A guard that is moved out of the scope where it
/// was acquired is reported.
pub proof fn locks_move_with_their_guard(
    state: LowerState,
    source: LocalId,
    destination: LocalId,
)
    requires
        unique_keys(state.locks),
        unique_keys(state.guard_borrows),
        source != destination,
        value_of(state.locks, source.0) is Some,
    ensures
        ({
            let after = state.moving_lock(source, destination);
            let lock = value_of(state.locks, source.0)->0;
            &&& value_of(after.locks, destination.0) matches Some(moved) && moved.owner
                == lock.owner && moved.origin == lock.origin
            &&& value_of(after.locks, source.0) is None
            &&& state.depth_of(destination, lock.creation_scope) < lock.creation_scope
                ==> after.diagnostics.len() > state.diagnostics.len()
        }),
{
    let lock = value_of(state.locks, source.0)->0;
    let depth = state.depth_of(destination, lock.creation_scope);
    let cut = crate::table::without_key(state.locks, source.0);
    let moved = crate::lower::state::MutexLoan { creation_scope: depth, ..lock };
    tables_read_back_what_was_stored(state.locks, source.0, lock, destination.0);
    tables_read_back_what_was_stored(cut, destination.0, moved, source.0);
}

} // verus!
