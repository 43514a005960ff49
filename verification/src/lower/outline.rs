//! What instructions leave alone, what the end of a scope restores, and what
//! becomes of values and certificates that are assigned.

use vstd::prelude::*;

use crate::diag::Span;
use crate::lower::state::{
    capture_types, held_by, held_by_others, is_fn_mut, owned_operands, stored_operands,
    tasks_of_others, typed_captures, HeldLoan, LexicalLoan, LocalState, LowerState,
};
use crate::mir::{
    BorrowKind, BorrowedClosureCaptureView, CaptureTransfer, ClosureCaptureView, LocalId,
    MirInstView, MirValue, RvalueView,
};
use crate::table::{
    has_key, key_position, key_position_is_first, unique_keys, value_of, with_entry, without_key,
};
use crate::thread_safety::SendProvenanceView;
use crate::types::TypeView;

verus! {

impl LowerState {
    /// The tables over locals have one entry per local, each scope knows the
    /// names that it hides, and the current block exists.
    pub open spec fn well_formed(self) -> bool {
        &&& self.next_local as int == self.locals.len()
        &&& self.states.len() == self.locals.len()
        &&& self.depths.len() == self.locals.len()
        &&& self.scopes.len() == self.hidden.len()
        &&& self.scopes.len() >= 1
        &&& (self.current.0 as int) < self.blocks.len()
        &&& unique_keys(self.bindings)
    }

    /// Whether two states differ at most in what an instruction may change: not
    /// in the locals that exist, the names and scopes, or other blocks than the
    /// current one.
    pub open spec fn same_outline(self, other: LowerState) -> bool {
        &&& other.resolver == self.resolver
        &&& other.module == self.module
        &&& other.fn_sigs == self.fn_sigs
        &&& other.next_local == self.next_local
        &&& other.locals.len() == self.locals.len()
        &&& other.states.len() == self.states.len()
        &&& other.depths == self.depths
        &&& other.bindings == self.bindings
        &&& other.hidden == self.hidden
        &&& other.scopes == self.scopes
        &&& other.loops == self.loops
        &&& other.current == self.current
        &&& other.blocks.len() == self.blocks.len()
        &&& forall|j: int|
            0 <= j < self.blocks.len() && j != self.current.0 as int ==> other.blocks[j]
                == #[trigger] self.blocks[j]
    }
}

impl LowerState {
    /// Whether two states agree on where callables came from.
    pub open spec fn same_certificates(self, other: LowerState) -> bool {
        other.provenance == self.provenance && other.safety == self.safety
    }

    /// Whether two states agree on the code so far and on which locals have a
    /// value.
    pub open spec fn same_code(self, other: LowerState) -> bool {
        other.blocks == self.blocks && other.states == self.states && other.locals == self.locals
    }
}

proof fn outlines_carry_over(first: LowerState, second: LowerState, third: LowerState)
    requires
        first.same_outline(second),
        second.same_outline(third),
    ensures
        first.same_outline(third),
{
    assert forall|j: int|
        0 <= j < first.blocks.len() && j != first.current.0 as int implies third.blocks[j]
        == #[trigger] first.blocks[j] by {
        assert(second.blocks[j] == first.blocks[j]);
        assert(third.blocks[j] == second.blocks[j]);
    }
}

proof fn stored_arcs_keep_the_outline(state: LowerState, stored: Seq<(MirValue, Seq<char>)>, i: int)
    ensures
        state.same_outline(state.rejecting_stored_arcs(stored, i)),
        state.same_certificates(state.rejecting_stored_arcs(stored, i)),
        state.same_code(state.rejecting_stored_arcs(stored, i)),
    decreases stored.len() - i,
{
    if 0 <= i < stored.len() {
        let next = match state.arc_loan_of(stored[i].0) {
            Some(loan) => state.error(
                "an Arc::borrow() reference cannot be stored in "@ + stored[i].1
                    + "; keep it in a direct lexical binding"@,
                Some(loan.origin),
            ),
            None => state,
        };
        stored_arcs_keep_the_outline(next, stored, i + 1);
    }
}

proof fn captured_arcs_keep_the_outline(
    state: LowerState,
    captures: Seq<ClosureCaptureView>,
    i: int,
)
    ensures
        state.same_outline(state.rejecting_captured_arcs(captures, i)),
        state.same_certificates(state.rejecting_captured_arcs(captures, i)),
        state.same_code(state.rejecting_captured_arcs(captures, i)),
    decreases captures.len() - i,
{
    if 0 <= i < captures.len() {
        let checked = match value_of(state.arc_loans, captures[i].local.0) {
            Some(loan) => state.error(
                "an Arc::borrow() reference cannot be captured by a closure; borrow inside the closure from an owned Arc clone instead"@,
                Some(loan.origin),
            ),
            None => state,
        };
        let next = if captures[i].transfer == CaptureTransfer::Move {
            checked.reporting_arc_conflict(captures[i].local, "move into a closure"@, None)
        } else {
            checked
        };
        captured_arcs_keep_the_outline(next, captures, i + 1);
    }
}

proof fn stored_loans_keep_the_outline(state: LowerState, stored: Seq<(MirValue, Seq<char>)>, i: int)
    ensures
        state.same_outline(state.rejecting_stored_loans(stored, i)),
        state.same_certificates(state.rejecting_stored_loans(stored, i)),
        state.same_code(state.rejecting_stored_loans(stored, i)),
    decreases stored.len() - i,
{
    if 0 <= i < stored.len() {
        stored_loans_keep_the_outline(
            state.rejecting_stored_loan(stored[i].0, stored[i].1),
            stored,
            i + 1,
        );
    }
}

proof fn captured_loans_keep_the_outline(
    state: LowerState,
    captures: Seq<ClosureCaptureView>,
    i: int,
)
    ensures
        state.same_outline(state.rejecting_captured_loans(captures, i)),
        state.same_certificates(state.rejecting_captured_loans(captures, i)),
        state.same_code(state.rejecting_captured_loans(captures, i)),
    decreases captures.len() - i,
{
    if 0 <= i < captures.len() {
        let next = if state.is_borrowed_local(captures[i].local) {
            state.error(
                "a borrowed reference or callable cannot be captured by an owned closure"@,
                None,
            )
        } else {
            state
        };
        captured_loans_keep_the_outline(next, captures, i + 1);
    }
}

proof fn stored_guards_keep_the_outline(
    state: LowerState,
    stored: Seq<(MirValue, Seq<char>)>,
    i: int,
)
    ensures
        state.same_outline(state.rejecting_stored_guards(stored, i)),
        state.same_certificates(state.rejecting_stored_guards(stored, i)),
        state.same_code(state.rejecting_stored_guards(stored, i)),
    decreases stored.len() - i,
{
    if 0 <= i < stored.len() {
        let next = if state.is_guarded_operand(stored[i].0) {
            state.error(
                "MutexGuard cannot be stored in "@ + stored[i].1
                    + "; keep it in a direct lexical binding"@,
                None,
            )
        } else {
            state
        };
        stored_guards_keep_the_outline(next, stored, i + 1);
    }
}

proof fn captured_guards_keep_the_outline(
    state: LowerState,
    captures: Seq<ClosureCaptureView>,
    i: int,
)
    ensures
        state.same_outline(state.rejecting_captured_guards(captures, i)),
        state.same_certificates(state.rejecting_captured_guards(captures, i)),
        state.same_code(state.rejecting_captured_guards(captures, i)),
    decreases captures.len() - i,
{
    if 0 <= i < captures.len() {
        let local = captures[i].local;
        let next = if has_key(state.locks, local.0) || state.has_guard_type(local) {
            state.error("MutexGuard cannot be captured by a closure"@, None)
        } else {
            state
        };
        captured_guards_keep_the_outline(next, captures, i + 1);
    }
}

proof fn lent_captures_keep_the_outline(
    state: LowerState,
    holder: LocalId,
    captures: Seq<BorrowedClosureCaptureView>,
    i: int,
)
    ensures
        state.same_outline(state.registering_captures(holder, captures, i)),
        state.same_certificates(state.registering_captures(holder, captures, i)),
        state.same_code(state.registering_captures(holder, captures, i)),
    decreases captures.len() - i,
{
    if 0 <= i < captures.len() {
        let next = state.registering_loan(
            holder,
            captures[i].local,
            captures[i].borrow,
            Span { start: 0, end: 0 },
        );
        lent_captures_keep_the_outline(next, holder, captures, i + 1);
    }
}

proof fn shared_loans_keep_the_outline(
    state: LowerState,
    loans: Seq<LexicalLoan>,
    destination: LocalId,
    i: int,
)
    ensures
        state.same_outline(state.sharing_loans(loans, destination, i)),
        state.same_certificates(state.sharing_loans(loans, destination, i)),
        state.same_code(state.sharing_loans(loans, destination, i)),
    decreases loans.len() - i,
{
    if 0 <= i < loans.len() {
        let loan = loans[i];
        let depth = state.depth_of(destination, 0);
        let next = if loan.kind == BorrowKind::Mutable {
            state.error(
                "an FnMut or mutable reference cannot be aliased; pass it directly or create a shorter reborrow"@,
                Some(loan.origin),
            )
        } else {
            let checked = if depth < loan.creation_scope {
                state.error(
                    "a borrowed reference or callable cannot escape the lexical scope where its loan was created"@,
                    Some(loan.origin),
                )
            } else {
                state
            };
            LowerState {
                loans: checked.loans.push(
                    HeldLoan {
                        holder: destination,
                        loan: LexicalLoan { creation_scope: depth, ..loan },
                    },
                ),
                ..checked
            }
        };
        shared_loans_keep_the_outline(next, loans, destination, i + 1);
    }
}

proof fn moved_operands_keep_the_outline(state: LowerState, operands: Seq<MirValue>, i: int)
    ensures
        state.same_outline(state.moving_operands(operands, i)),
        state.same_certificates(state.moving_operands(operands, i)),
        state.moving_operands(operands, i).blocks == state.blocks,
        state.moving_operands(operands, i).locals == state.locals,
    decreases operands.len() - i,
{
    if 0 <= i < operands.len() {
        let next = match operands[i] {
            MirValue::Local(source) => if state.is_droppable(source) {
                state.with_state(source, LocalState::Moved)
            } else {
                state
            },
            _ => state,
        };
        moved_operands_keep_the_outline(next, operands, i + 1);
    }
}

proof fn moved_captures_keep_the_outline(
    state: LowerState,
    captures: Seq<ClosureCaptureView>,
    i: int,
)
    ensures
        state.same_outline(state.moving_captures(captures, i)),
        state.same_certificates(state.moving_captures(captures, i)),
        state.moving_captures(captures, i).blocks == state.blocks,
        state.moving_captures(captures, i).locals == state.locals,
    decreases captures.len() - i,
{
    if 0 <= i < captures.len() {
        let next = if captures[i].transfer == CaptureTransfer::Move {
            state.with_state(captures[i].local, LocalState::Moved)
        } else {
            state
        };
        moved_captures_keep_the_outline(next, captures, i + 1);
    }
}

pub(crate) proof fn checks_keep_the_outline(state: LowerState, local: LocalId, value: RvalueView)
    ensures
        state.same_outline(
            state.rejecting_arc_storage(value).rejecting_loan_storage(
                value,
            ).rejecting_guard_storage(local, value),
        ),
        state.same_certificates(
            state.rejecting_arc_storage(value).rejecting_loan_storage(
                value,
            ).rejecting_guard_storage(local, value),
        ),
        state.same_code(
            state.rejecting_arc_storage(value).rejecting_loan_storage(
                value,
            ).rejecting_guard_storage(local, value),
        ),
{
    let arcs = state.rejecting_arc_storage(value);
    let loans = arcs.rejecting_loan_storage(value);
    match value {
        RvalueView::MakeClosure { captures, .. } => {
            captured_arcs_keep_the_outline(state, captures, 0);
            captured_loans_keep_the_outline(arcs, captures, 0);
            captured_guards_keep_the_outline(loans, captures, 0);
        },
        _ => {
            stored_arcs_keep_the_outline(state, stored_operands(value), 0);
            stored_loans_keep_the_outline(arcs, stored_operands(value), 0);
            stored_guards_keep_the_outline(loans, stored_operands(value), 0);
        },
    }
}

pub(crate) proof fn bound_values_keep_the_outline(state: LowerState, local: LocalId, value: RvalueView)
    ensures
        state.same_outline(state.binding_value(local, value)),
        state.same_code(state.binding_value(local, value)),
{
    match value {
        RvalueView::MakeBorrowedClosure { captures, .. } => {
            let marked = LowerState {
                borrowed_callables: state.borrowed_callables.insert(local.0),
                ..state
            };
            lent_captures_keep_the_outline(marked, local, captures, 0);
        },
        RvalueView::Move(source) => {
            let after = state.binding_moved(local, source);
            let checked = if is_fn_mut(state.local_type(source)) {
                state.error(
                    "an FnMut callable cannot be assigned or aliased; pass or call it directly"@,
                    None,
                )
            } else {
                state
            };
            let carried = checked.with_moved_provenance(source, local);
            let lent = match value_of(carried.arc_loans, source.0) {
                Some(loan) => {
                    let reported = if carried.depth_of(local, loan.creation_scope)
                        < loan.creation_scope {
                        carried.error(
                            "an Arc::borrow() reference cannot escape the lexical scope where it was created"@,
                            Some(loan.origin),
                        )
                    } else {
                        carried
                    };
                    LowerState {
                        arc_loans: with_entry(reported.arc_loans, local.0, loan),
                        ..reported
                    }
                },
                None => carried,
            };
            shared_loans_keep_the_outline(lent, held_by(lent.loans, source, 0), local, 0);
        },
        _ => {},
    }
}

proof fn transfers_keep_the_outline(state: LowerState, value: RvalueView, local: LocalId)
    ensures
        state.same_outline(state.transferring(value, local)),
        state.same_certificates(state.transferring(value, local)),
        state.transferring(value, local).blocks == state.blocks,
        !(value is VecIndex) && !(value is MapGet) && !(value is FieldAccess) && !(
        value is EnumPayload) ==> state.transferring(value, local).locals == state.locals,
{
    let operands = owned_operands(value);
    match value {
        RvalueView::VecPush { .. } => {
            moved_operands_keep_the_outline(
                state.with_state(local, LocalState::Moved),
                operands,
                0,
            );
        },
        RvalueView::MakeClosure { captures, .. } => {
            moved_captures_keep_the_outline(state, captures, 0);
        },
        _ => {
            moved_operands_keep_the_outline(state, operands, 0);
        },
    }
}

pub(crate) proof fn drops_keep_the_outline(state: LowerState, local: LocalId)
    ensures
        state.same_outline(state.dropping(local)),
        state.same_certificates(state.dropping(local)),
        state.same_outline(state.reassigning(local)),
        state.same_certificates(state.reassigning(local)),
        state.same_outline(state.dropping_if_needed(local)),
        state.same_certificates(state.dropping_if_needed(local)),
{
    let reported = state.reporting_loan(local, "reassign"@, None);
    assert(state.same_outline(state.dropping(local)));
    assert(reported.same_outline(reported.dropping(local)));
}

pub(crate) proof fn assignments_keep_the_outline(state: LowerState, local: LocalId, value: RvalueView)
    ensures
        state.same_outline(state.assigning(local, value)),
{
    let checked = state.rejecting_arc_storage(value).rejecting_loan_storage(
        value,
    ).rejecting_guard_storage(local, value);
    checks_keep_the_outline(state, local, value);
    let cleared = checked.without_arc_loan(local).without_loans_of(local);
    let bound = cleared.binding_value(local, value);
    bound_values_keep_the_outline(cleared, local, value);
    drops_keep_the_outline(bound, local);
    let stored = bound.reassigning(local).binding_locks(local, value).with_state(
        local,
        LocalState::Initialized,
    );
    let moved = match value {
        RvalueView::Move(source) => stored.moving_into(local, source),
        _ => stored,
    };
    assert(bound.reassigning(local).same_outline(stored));
    assert(stored.same_outline(moved));
    transfers_keep_the_outline(moved, value, local);
}

/// A value for a local that has none is put there by one instruction: nothing has
/// to be dropped before.
pub(crate) proof fn first_values_take_one_instruction(
    state: LowerState,
    local: LocalId,
    value: RvalueView,
)
    requires
        (state.current.0 as int) < state.blocks.len(),
        state.state_of(local) != Some(LocalState::Initialized),
    ensures
        state.assigned(local, value).blocks == state.blocks.update(
            state.current.0 as int,
            state.blocks[state.current.0 as int].push(MirInstView::Assign { local, value }),
        ),
        state.same_outline(state.assigned(local, value)),
{
    instructions_stand_in_the_current_block(state, MirInstView::Assign { local, value });
    reveal(LowerState::pushed);
    let checked = state.rejecting_arc_storage(value).rejecting_loan_storage(
        value,
    ).rejecting_guard_storage(local, value);
    checks_keep_the_outline(state, local, value);
    let cleared = checked.without_arc_loan(local).without_loans_of(local);
    let bound = cleared.binding_value(local, value);
    bound_values_keep_the_outline(cleared, local, value);
    assert(bound.state_of(local) == state.state_of(local));
    assert(bound.reassigning(local).blocks == state.blocks);
    let stored = bound.reassigning(local).binding_locks(local, value).with_state(
        local,
        LocalState::Initialized,
    );
    let moved = match value {
        RvalueView::Move(source) => stored.moving_into(local, source),
        _ => stored,
    };
    assert(stored.blocks == state.blocks);
    assert(moved.blocks == state.blocks);
    transfers_keep_the_outline(moved, value, local);
    assignments_keep_the_outline(state, local, value);
}

/// A value that takes nothing over changes which locals have a value at one place
/// only.
pub(crate) proof fn quiet_values_change_one_local(
    state: LowerState,
    local: LocalId,
    value: RvalueView,
)
    requires
        (state.current.0 as int) < state.blocks.len(),
        state.state_of(local) != Some(LocalState::Initialized),
        value is Binary || value is ThreadErrorFromStatus || value is SpscTryRecv
            || value is ThreadJoinResult || value is ThreadJoinUnit || value is ThreadDetachUnit
            || value is ThreadSpawnUnit || value is ThreadSpawnResult
            || value is SpscChannelNew,
    ensures
        state.assigned(local, value).states == state.with_state(
            local,
            LocalState::Initialized,
        ).states,
{
    reveal(LowerState::pushed);
    let checked = state.rejecting_arc_storage(value).rejecting_loan_storage(
        value,
    ).rejecting_guard_storage(local, value);
    checks_keep_the_outline(state, local, value);
    let cleared = checked.without_arc_loan(local).without_loans_of(local);
    let bound = cleared.binding_value(local, value);
    bound_values_keep_the_outline(cleared, local, value);
    assert(bound.state_of(local) == state.state_of(local));
    assert(bound.reassigning(local).states == state.states);
}

/// A value that is not taken out of another one leaves what is known of the locals
/// themselves as it was.
pub(crate) proof fn quiet_values_keep_the_locals(
    state: LowerState,
    local: LocalId,
    value: RvalueView,
)
    requires
        !(value is VecIndex) && !(value is MapGet) && !(value is FieldAccess)
            && !(value is EnumPayload) && !(value is Move),
    ensures
        state.assigned(local, value).locals == state.locals,
{
    reveal(LowerState::pushed);
    let checked = state.rejecting_arc_storage(value).rejecting_loan_storage(
        value,
    ).rejecting_guard_storage(local, value);
    checks_keep_the_outline(state, local, value);
    let cleared = checked.without_arc_loan(local).without_loans_of(local);
    bound_values_keep_the_outline(cleared, local, value);
    let bound = cleared.binding_value(local, value);
    let stored = bound.reassigning(local).binding_locks(local, value).with_state(
        local,
        LocalState::Initialized,
    );
    transfers_keep_the_outline(stored, value, local);
}

/// An added instruction stands at the end of the current block. It leaves the
/// other blocks, the set of locals, the names and the scopes as they were, and
/// keeps the state well-formed.
pub proof fn instructions_stand_in_the_current_block(state: LowerState, inst: MirInstView)
    ensures
        state.same_outline(state.pushed(inst)),
        state.well_formed() ==> state.pushed(inst).well_formed(),
        (state.current.0 as int) < state.blocks.len() ==> {
            let block = state.pushed(inst).blocks[state.current.0 as int];
            block.len() > 0 && block.last() == inst
        },
{
    reveal(LowerState::pushed);
    match inst {
        MirInstView::Assign { local, value } => {
            assignments_keep_the_outline(state, local, value);
        },
        _ => {},
    }
}

/// A fresh local gets the next number, keeps all others as they are, and keeps
/// the state well-formed until the numbers are used up.
pub proof fn fresh_locals_get_their_own_number(state: LowerState, name: Option<Seq<char>>)
    requires
        state.well_formed(),
        state.locals.len() < u32::MAX,
    ensures
        ({
            let after = state.with_fresh_local(name);
            let id = LocalId(state.next_local);
            &&& after.well_formed()
            &&& !state.has_local(id)
            &&& after.has_local(id)
            &&& after.state_of(id) == Some(LocalState::Uninitialized)
            &&& after.locals.take(state.locals.len() as int) == state.locals
            &&& after.scopes.last().contains(id)
        }),
{
    let after = state.with_fresh_local(name);
    let id = LocalId(state.next_local);
    assert(after.locals.take(state.locals.len() as int) =~= state.locals);
    assert(after.scopes.last()[state.scopes.last().len() as int] == id);
}

/// The bindings after the hidden ones before position `i` came back, the last
/// one first.
pub open spec fn uncovered(
    bindings: Seq<(Seq<char>, LocalId)>,
    hidden: Seq<(Seq<char>, Option<LocalId>)>,
    i: int,
) -> Seq<(Seq<char>, LocalId)>
    decreases i,
{
    if i <= 0 || i > hidden.len() {
        bindings
    } else {
        uncovered(
            match hidden[i - 1].1 {
                Some(local) => with_entry(bindings, hidden[i - 1].0, local),
                None => without_key(bindings, hidden[i - 1].0),
            },
            hidden,
            i - 1,
        )
    }
}

impl LowerState {
    /// Whether the innermost scope of this state was opened in `outer`, and its
    /// end brings back the names of `outer`.
    pub open spec fn is_inside(self, outer: LowerState) -> bool {
        &&& self.scopes.len() == outer.scopes.len() + 1
        &&& self.scopes.drop_last() == outer.scopes
        &&& self.hidden.len() == outer.hidden.len() + 1
        &&& self.hidden.drop_last() == outer.hidden
        &&& uncovered(self.bindings, self.hidden.last(), self.hidden.last().len() as int)
            == outer.bindings
    }
}

pub(crate) proof fn uncovering_restores_bindings(
    state: LowerState,
    hidden: Seq<(Seq<char>, Option<LocalId>)>,
    i: int,
)
    ensures
        state.uncovering(hidden, i) == (LowerState {
            bindings: uncovered(state.bindings, hidden, i),
            ..state
        }),
    decreases i,
{
    if 0 < i <= hidden.len() {
        let next = LowerState {
            bindings: match hidden[i - 1].1 {
                Some(local) => with_entry(state.bindings, hidden[i - 1].0, local),
                None => without_key(state.bindings, hidden[i - 1].0),
            },
            ..state
        };
        uncovering_restores_bindings(next, hidden, i - 1);
    }
}

proof fn uncovering_reads_what_is_before(
    bindings: Seq<(Seq<char>, LocalId)>,
    hidden: Seq<(Seq<char>, Option<LocalId>)>,
    last: (Seq<char>, Option<LocalId>),
    i: int,
)
    requires
        0 <= i <= hidden.len(),
    ensures
        uncovered(bindings, hidden.push(last), i) == uncovered(bindings, hidden, i),
    decreases i,
{
    if 0 < i {
        let next = match hidden[i - 1].1 {
            Some(local) => with_entry(bindings, hidden[i - 1].0, local),
            None => without_key(bindings, hidden[i - 1].0),
        };
        assert(hidden.push(last)[i - 1] == hidden[i - 1]);
        uncovering_reads_what_is_before(next, hidden, last, i - 1);
    }
}

/// Storing under a key and putting back what stood there gives the old table.
proof fn stored_entries_can_be_undone(
    entries: Seq<(Seq<char>, LocalId)>,
    name: Seq<char>,
    local: LocalId,
)
    ensures
        match value_of(entries, name) {
            Some(old_local) => with_entry(with_entry(entries, name, local), name, old_local)
                == entries,
            None => without_key(with_entry(entries, name, local), name) == entries,
        },
{
    let put = with_entry(entries, name, local);
    key_position_is_first(entries, name, 0);
    key_position_is_first(put, name, 0);
    match key_position(entries, name, 0) {
        Some(p) => {
            assert(put[p].0 == name);
            let q = key_position(put, name, 0)->0;
            if q < p {
                assert(entries[q].0 != name);
            }
            assert(put.update(p, (name, entries[p].1)) =~= entries);
        },
        None => {
            assert(put.last().0 == name);
            let q = key_position(put, name, 0)->0;
            if q < entries.len() {
                assert(entries[q].0 != name);
            }
            assert(put.remove(entries.len() as int) =~= entries);
        },
    }
}

proof fn drained_scopes_keep_the_outline(state: LowerState, scopes: Seq<LocalId>, i: int)
    ensures
        state.same_outline(state.draining_from(scopes, i)),
    decreases scopes.len() - i,
{
    if 0 <= i < scopes.len() {
        let next = LowerState {
            reservations: held_by_others(state.reservations, scopes[i], 0),
            fn_mut_tasks: tasks_of_others(state.fn_mut_tasks, scopes[i], 0),
            ..state
        }.emitted_inside(MirInstView::DrainThreadScope(scopes[i]));
        assert(state.same_outline(next));
        drained_scopes_keep_the_outline(next, scopes, i + 1);
        outlines_carry_over(state, next, state.draining_from(scopes, i));
    }
}

pub(crate) proof fn ended_loans_keep_the_outline(state: LowerState, holders: Seq<LocalId>, i: int)
    ensures
        state.same_outline(state.without_arc_loans(holders, i)),
        state.same_outline(state.without_loans(holders, i)),
    decreases holders.len() - i,
{
    if 0 <= i < holders.len() {
        ended_loans_keep_the_outline(state.without_arc_loan(holders[i]), holders, i + 1);
        ended_loans_keep_the_outline(state.without_loans_of(holders[i]), holders, i + 1);
    }
}

proof fn dropped_locals_keep_the_outline(state: LowerState, locals: Seq<LocalId>, i: int)
    ensures
        state.same_outline(state.dropping_before(locals, i)),
    decreases i,
{
    if 0 < i <= locals.len() {
        let next = state.dropping_if_needed(locals[i - 1]).without_lock(locals[i - 1]);
        drops_keep_the_outline(state, locals[i - 1]);
        dropped_locals_keep_the_outline(next, locals, i - 1);
    }
}

/// A name that is bound inside a scope hides the outer one until the scope
/// ends: whatever is bound, allocated or emitted inside, the end of the scope
/// brings back the names, the scopes and the hidden names from before it.
pub proof fn scopes_restore_names(
    outer: LowerState,
    inner: LowerState,
    name: Seq<char>,
    local: LocalId,
    label: Option<Seq<char>>,
    inst: MirInstView,
)
    requires
        outer.scopes.len() >= 1,
    ensures
        outer.entering_scope().is_inside(outer),
        inner.is_inside(outer) ==> {
            &&& inner.with_binding(name, local).is_inside(outer)
            &&& inner.with_fresh_local(label).is_inside(outer)
            &&& inner.pushed(inst).is_inside(outer)
            &&& inner.exiting_scope().bindings == outer.bindings
            &&& inner.exiting_scope().scopes == outer.scopes
            &&& inner.exiting_scope().hidden == outer.hidden
        },
{
    let entered = outer.entering_scope();
    assert(entered.scopes.drop_last() =~= outer.scopes);
    assert(entered.hidden.drop_last() =~= outer.hidden);
    if inner.is_inside(outer) {
        let hidden = inner.hidden.last();
        let bound = inner.with_binding(name, local);
        let last = (name, value_of(inner.bindings, name));
        assert(bound.hidden.last() == hidden.push(last));
        assert(bound.hidden.drop_last() =~= outer.hidden);
        stored_entries_can_be_undone(inner.bindings, name, local);
        uncovering_reads_what_is_before(inner.bindings, hidden, last, hidden.len() as int);

        let fresh = inner.with_fresh_local(label);
        assert(fresh.scopes.drop_last() =~= outer.scopes);

        instructions_stand_in_the_current_block(inner, inst);

        let drained = inner.draining();
        drained_scopes_keep_the_outline(inner, inner.callback_scopes, 0);
        let locals = drained.scopes.last();
        let left = LowerState { scopes: drained.scopes.drop_last(), ..drained };
        ended_loans_keep_the_outline(left, locals, 0);
        let freed = left.without_arc_loans(locals, 0);
        ended_loans_keep_the_outline(freed, locals, 0);
        let released = freed.without_loans(locals, 0);
        dropped_locals_keep_the_outline(released, locals, locals.len() as int);
        let cleaned = released.dropping_before(locals, locals.len() as int);
        uncovering_restores_bindings(
            LowerState { hidden: cleaned.hidden.drop_last(), ..cleaned },
            hidden,
            hidden.len() as int,
        );
    }
}

/// The waits for the tasks of the given scopes.
pub open spec fn drains(scopes: Seq<LocalId>) -> Seq<MirInstView> {
    Seq::new(scopes.len(), |i: int| MirInstView::DrainThreadScope(scopes[i]))
}

impl LowerState {
    /// The instructions of the current block.
    pub open spec fn current_insts(self) -> Seq<MirInstView> {
        self.blocks[self.current.0 as int]
    }

    /// Whether the current block exists and was not left yet.
    pub open spec fn is_open(self) -> bool {
        (self.current.0 as int) < self.blocks.len() && !self.terminated()
    }

    /// Whether a later state has the same open block, with more instructions.
    pub open spec fn goes_on(self, later: LowerState) -> bool {
        &&& later.current == self.current
        &&& later.is_open()
        &&& later.scopes == self.scopes
        &&& self.current_insts().is_prefix_of(later.current_insts())
    }
}

pub(crate) proof fn draining_appends(state: LowerState, scopes: Seq<LocalId>, i: int)
    requires
        state.is_open(),
        0 <= i <= scopes.len(),
    ensures
        state.goes_on(state.draining_from(scopes, i)),
        state.draining_from(scopes, i).current_insts() == state.current_insts() + drains(
            scopes.skip(i),
        ),
    decreases scopes.len() - i,
{
    if i < scopes.len() {
        let wait = MirInstView::DrainThreadScope(scopes[i]);
        let next = LowerState {
            reservations: held_by_others(state.reservations, scopes[i], 0),
            fn_mut_tasks: tasks_of_others(state.fn_mut_tasks, scopes[i], 0),
            ..state
        }.emitted_inside(wait);
        assert(next.current_insts() == state.current_insts().push(wait));
        assert(next.current_insts().last() == wait);
        draining_appends(next, scopes, i + 1);
        assert(state.current_insts() + drains(scopes.skip(i)) =~= next.current_insts() + drains(
            scopes.skip(i + 1),
        ));
    } else {
        assert(state.current_insts() + drains(scopes.skip(i)) =~= state.current_insts());
    }
}

proof fn cleanup_appends(state: LowerState, local: LocalId)
    requires
        state.is_open(),
    ensures
        state.goes_on(state.dropping_if_needed(local)),
{
    let after = state.dropping_if_needed(local);
    if after.blocks != state.blocks {
        assert(after.current_insts().drop_last() =~= state.current_insts());
        assert(after.current_insts().last() == MirInstView::Drop(local)
            || after.current_insts().last() == MirInstView::DropThreadHandle(local)
            || after.current_insts().last() == MirInstView::DropScopedThreadHandle(local));
    }
}

proof fn cleanups_append(state: LowerState, locals: Seq<LocalId>, i: int)
    requires
        state.is_open(),
    ensures
        state.goes_on(state.dropping_before(locals, i)),
    decreases i,
{
    if 0 < i <= locals.len() {
        let dropped = state.dropping_if_needed(locals[i - 1]);
        cleanup_appends(state, locals[i - 1]);
        cleanups_append(dropped.without_lock(locals[i - 1]), locals, i - 1);
    }
}

proof fn scope_cleanups_append(
    state: LowerState,
    scopes: Seq<Seq<LocalId>>,
    depth: int,
    i: int,
)
    requires
        state.is_open(),
    ensures
        state.goes_on(state.dropping_scopes(scopes, depth, i)),
    decreases i,
{
    if 0 < i && depth < i <= scopes.len() {
        let next = state.dropping_before(scopes[i - 1], scopes[i - 1].len() as int);
        cleanups_append(state, scopes[i - 1], scopes[i - 1].len() as int);
        scope_cleanups_append(next, scopes, depth, i - 1);
    }
}

pub(crate) proof fn released_scopes_keep_the_outline(state: LowerState, scopes: Seq<Seq<LocalId>>, i: int)
    ensures
        state.same_outline(state.releasing_scopes(scopes, i)),
        state.releasing_scopes(scopes, i).blocks == state.blocks,
    decreases scopes.len() - i,
{
    if 0 <= i < scopes.len() {
        ended_loans_keep_the_blocks(state, scopes[i], 0);
        let freed = state.without_arc_loans(scopes[i], 0);
        ended_loans_keep_the_blocks(freed, scopes[i], 0);
        ended_loans_keep_the_outline(state, scopes[i], 0);
        ended_loans_keep_the_outline(freed, scopes[i], 0);
        released_scopes_keep_the_outline(freed.without_loans(scopes[i], 0), scopes, i + 1);
    }
}

pub(crate) proof fn ended_loans_keep_the_blocks(state: LowerState, holders: Seq<LocalId>, i: int)
    ensures
        state.without_arc_loans(holders, i).blocks == state.blocks,
        state.without_loans(holders, i).blocks == state.blocks,
    decreases holders.len() - i,
{
    if 0 <= i < holders.len() {
        ended_loans_keep_the_blocks(state.without_arc_loan(holders[i]), holders, i + 1);
        ended_loans_keep_the_blocks(state.without_loans_of(holders[i]), holders, i + 1);
    }
}

/// Whoever leaves a scope first waits for the tasks of the open thread scopes,
/// in the order of their registration; every cleanup of a local comes after
/// that. This holds for the end of a scope, for jumps out of several scopes and
/// for returns.
pub proof fn scopes_are_drained_before_cleanup(state: LowerState, depth: int)
    requires
        state.is_open(),
        0 <= depth,
    ensures
        ({
            let waited = state.current_insts() + drains(state.callback_scopes);
            &&& waited.is_prefix_of(state.dropping_all().current_insts())
            &&& state.scopes.len() > depth ==> waited.is_prefix_of(
                state.dropping_after_depth(depth).current_insts(),
            )
            &&& state.scopes.len() > 1 ==> waited.is_prefix_of(
                state.exiting_scope().current_insts(),
            )
        }),
{
    let scopes = state.scopes;
    let drained = state.draining();
    draining_appends(state, state.callback_scopes, 0);
    assert(state.callback_scopes.skip(0) =~= state.callback_scopes);

    released_scopes_keep_the_outline(drained, scopes, 0);
    let everything = drained.releasing_scopes(scopes, 0);
    assert(everything.is_open());
    scope_cleanups_append(everything, scopes, 0, scopes.len() as int);

    released_scopes_keep_the_outline(drained, scopes, depth);
    let some = drained.releasing_scopes(scopes, depth);
    assert(some.is_open());
    scope_cleanups_append(some, scopes, depth, scopes.len() as int);

    if scopes.len() > 1 {
        let locals = drained.scopes.last();
        let left = LowerState { scopes: drained.scopes.drop_last(), ..drained };
        ended_loans_keep_the_outline(left, locals, 0);
        ended_loans_keep_the_blocks(left, locals, 0);
        let freed = left.without_arc_loans(locals, 0);
        ended_loans_keep_the_outline(freed, locals, 0);
        ended_loans_keep_the_blocks(freed, locals, 0);
        let released = freed.without_loans(locals, 0);
        assert(released.is_open());
        cleanups_append(released, locals, locals.len() as int);
        let cleaned = released.dropping_before(locals, locals.len() as int);
        if cleaned.hidden.len() > 0 {
            uncovering_restores_bindings(
                LowerState { hidden: cleaned.hidden.drop_last(), ..cleaned },
                cleaned.hidden.last(),
                cleaned.hidden.last().len() as int,
            );
        }
    }
}

proof fn other_tasks_stay(tasks: Seq<(LocalId, LocalId)>, scope: LocalId, i: int)
    requires
        0 <= i,
    ensures
        forall|j: int|
            0 <= j < tasks_of_others(tasks, scope, i).len() ==> (#[trigger] tasks_of_others(
                tasks,
                scope,
                i,
            )[j]).0 != scope && tasks.contains(tasks_of_others(tasks, scope, i)[j]),
    decreases tasks.len() - i,
{
    if i < tasks.len() {
        other_tasks_stay(tasks, scope, i + 1);
        let rest = tasks_of_others(tasks, scope, i + 1);
        let whole = tasks_of_others(tasks, scope, i);
        assert forall|j: int| 0 <= j < whole.len() implies (#[trigger] whole[j]).0 != scope
            && tasks.contains(whole[j]) by {
            if tasks[i].0 == scope {
                assert(whole[j] == rest[j]);
            } else if j > 0 {
                assert(whole[j] == rest[j - 1]);
            } else {
                assert(whole[0] == tasks[i]);
            }
        }
    }
}

/// A task that is free stays free while scopes are drained.
proof fn draining_reserves_nothing(
    state: LowerState,
    scopes: Seq<LocalId>,
    i: int,
    entry: (LocalId, LocalId),
)
    requires
        !state.fn_mut_tasks.contains(entry),
    ensures
        !state.draining_from(scopes, i).fn_mut_tasks.contains(entry),
    decreases scopes.len() - i,
{
    if 0 <= i < scopes.len() {
        let next = LowerState {
            reservations: held_by_others(state.reservations, scopes[i], 0),
            fn_mut_tasks: tasks_of_others(state.fn_mut_tasks, scopes[i], 0),
            ..state
        }.emitted_inside(MirInstView::DrainThreadScope(scopes[i]));
        other_tasks_stay(state.fn_mut_tasks, scopes[i], 0);
        draining_reserves_nothing(next, scopes, i + 1, entry);
    }
}

proof fn draining_frees_tasks(
    state: LowerState,
    scopes: Seq<LocalId>,
    i: int,
    k: int,
    task: LocalId,
)
    requires
        0 <= i <= k < scopes.len(),
    ensures
        !state.draining_from(scopes, i).fn_mut_tasks.contains((scopes[k], task)),
    decreases scopes.len() - i,
{
    let next = LowerState {
        reservations: held_by_others(state.reservations, scopes[i], 0),
        fn_mut_tasks: tasks_of_others(state.fn_mut_tasks, scopes[i], 0),
        ..state
    }.emitted_inside(MirInstView::DrainThreadScope(scopes[i]));
    if k == i {
        other_tasks_stay(state.fn_mut_tasks, scopes[i], 0);
        draining_reserves_nothing(next, scopes, i + 1, (scopes[k], task));
    } else {
        draining_frees_tasks(next, scopes, i + 1, k, task);
    }
}

/// An exclusive task runs at most once at a time: once it is reserved in a
/// scope, a second reservation there is refused until that scope is drained.
pub proof fn exclusive_tasks_run_one_at_a_time(
    state: LowerState,
    scope: LocalId,
    task: LocalId,
)
    requires
        is_fn_mut(state.local_type(task)),
    ensures
        state.reserving(scope, task).is_reserved(scope, task),
        state.callback_scopes.contains(scope) ==> !state.reserving(
            scope,
            task,
        ).draining().is_reserved(scope, task),
{
    let reserved = state.reserving(scope, task);
    assert(reserved.fn_mut_tasks.last() == (scope, task));
    assert(reserved.fn_mut_tasks.contains((scope, task)));
    if state.callback_scopes.contains(scope) {
        let k = choose|k: int|
            0 <= k < state.callback_scopes.len() && state.callback_scopes[k] == scope;
        draining_frees_tasks(reserved, reserved.callback_scopes, 0, k, task);
    }
}

/// What an assignment does to provenance is what its value does.
proof fn assignments_bind_certificates(state: LowerState, local: LocalId, value: RvalueView)
    ensures
        ({
            let checked = state.rejecting_arc_storage(value).rejecting_loan_storage(
                value,
            ).rejecting_guard_storage(local, value).without_arc_loan(local).without_loans_of(
                local,
            );
            let after = state.pushed(MirInstView::Assign { local, value });
            &&& state.same_certificates(checked)
            &&& after.provenance == checked.binding_value(local, value).provenance
        }),
{
    reveal(LowerState::pushed);
    checks_keep_the_outline(state, local, value);
    let checked = state.rejecting_arc_storage(value).rejecting_loan_storage(
        value,
    ).rejecting_guard_storage(local, value).without_arc_loan(local).without_loans_of(local);
    let bound = checked.binding_value(local, value);
    drops_keep_the_outline(bound, local);
    let stored = bound.reassigning(local).binding_locks(local, value).with_state(
        local,
        LocalState::Initialized,
    );
    let moved = match value {
        RvalueView::Move(source) => stored.moving_into(local, source),
        _ => stored,
    };
    assert(stored.provenance == bound.provenance);
    transfers_keep_the_outline(moved, value, local);
}

/// A callable keeps its certificate where it is moved to, and the place that it
/// came from has none any more.
pub proof fn certificates_move_with_their_callable(
    state: LowerState,
    local: LocalId,
    source: LocalId,
)
    requires
        state.provenance.contains_key(source.0),
    ensures
        ({
            let after = state.pushed(
                MirInstView::Assign { local, value: RvalueView::Move(source) },
            );
            &&& after.provenance.contains_key(local.0)
            &&& after.provenance[local.0] == state.provenance[source.0]
            &&& source.0 != local.0 ==> !after.provenance.contains_key(source.0)
        }),
{
    let value = RvalueView::Move(source);
    assignments_bind_certificates(state, local, value);
    let checked = state.rejecting_arc_storage(value).rejecting_loan_storage(
        value,
    ).rejecting_guard_storage(local, value).without_arc_loan(local).without_loans_of(local);
    let reported = if is_fn_mut(checked.local_type(source)) {
        checked.error(
            "an FnMut callable cannot be assigned or aliased; pass or call it directly"@,
            None,
        )
    } else {
        checked
    };
    let carried = reported.with_moved_provenance(source, local);
    let lent = match value_of(carried.arc_loans, source.0) {
        Some(loan) => {
            let escaped = if carried.depth_of(local, loan.creation_scope) < loan.creation_scope {
                carried.error(
                    "an Arc::borrow() reference cannot escape the lexical scope where it was created"@,
                    Some(loan.origin),
                )
            } else {
                carried
            };
            LowerState { arc_loans: with_entry(escaped.arc_loans, local.0, loan), ..escaped }
        },
        None => carried,
    };
    shared_loans_keep_the_outline(lent, held_by(lent.loans, source, 0), local, 0);
}

/// A function item is certified by its name, and an owned closure by what it
/// captured.
pub proof fn callables_are_certified_where_they_are_made(
    state: LowerState,
    local: LocalId,
    function: Seq<char>,
    signature: TypeView,
    captures: Seq<ClosureCaptureView>,
)
    ensures
        ({
            let item = state.pushed(
                MirInstView::Assign {
                    local,
                    value: RvalueView::FunctionRef { name: function, signature },
                },
            );
            let closure = state.pushed(
                MirInstView::Assign {
                    local,
                    value: RvalueView::MakeClosure { function, signature, captures },
                },
            );
            &&& item.provenance.contains_key(local.0)
            &&& item.provenance[local.0] == (SendProvenanceView::FunctionItem { symbol: function })
            &&& closure.provenance.contains_key(local.0)
            &&& closure.provenance[local.0] == (SendProvenanceView::OwnedClosure {
                origin: function,
                captures: typed_captures(state.safety, capture_types(captures), 0).0,
            })
        }),
{
    assignments_bind_certificates(
        state,
        local,
        RvalueView::FunctionRef { name: function, signature },
    );
    assignments_bind_certificates(
        state,
        local,
        RvalueView::MakeClosure { function, signature, captures },
    );
}

/// A once-callable value is gone after its call.
pub proof fn called_values_are_gone(
    state: LowerState,
    local: LocalId,
    callee: LocalId,
    signature: TypeView,
    args: Seq<MirValue>,
)
    requires
        (callee.0 as int) < state.states.len(),
    ensures
        state.pushed(
            MirInstView::Assign {
                local,
                value: RvalueView::CallIndirect { callee, signature, args },
            },
        ).state_of(callee) == Some(LocalState::Moved),
{
    reveal(LowerState::pushed);
    let value = RvalueView::CallIndirect { callee, signature, args };
    assignments_keep_the_outline(state, local, value);
    checks_keep_the_outline(state, local, value);
    let bound = state.rejecting_arc_storage(value).rejecting_loan_storage(
        value,
    ).rejecting_guard_storage(local, value).without_arc_loan(local).without_loans_of(
        local,
    ).binding_value(local, value);
    drops_keep_the_outline(bound, local);
    let stored = bound.reassigning(local).binding_locks(local, value).with_state(
        local,
        LocalState::Initialized,
    );
    assert(stored.states.len() == state.states.len());
}

proof fn captures_stay_moved(
    state: LowerState,
    captures: Seq<ClosureCaptureView>,
    i: int,
    local: LocalId,
)
    requires
        0 <= i,
        (local.0 as int) < state.states.len(),
        state.state_of(local) == Some(LocalState::Moved) || exists|k: int|
            i <= k < captures.len() && (#[trigger] captures[k]).local == local
                && captures[k].transfer == CaptureTransfer::Move,
    ensures
        state.moving_captures(captures, i).state_of(local) == Some(LocalState::Moved),
    decreases captures.len() - i,
{
    if i < captures.len() {
        let next = if captures[i].transfer == CaptureTransfer::Move {
            state.with_state(captures[i].local, LocalState::Moved)
        } else {
            state
        };
        captures_stay_moved(next, captures, i + 1, local);
    }
}

/// What a closure captured by move is gone from its local.
pub proof fn captured_values_are_gone(
    state: LowerState,
    local: LocalId,
    function: Seq<char>,
    signature: TypeView,
    captures: Seq<ClosureCaptureView>,
    k: int,
)
    requires
        0 <= k < captures.len(),
        captures[k].transfer == CaptureTransfer::Move,
        (captures[k].local.0 as int) < state.states.len(),
    ensures
        state.pushed(
            MirInstView::Assign {
                local,
                value: RvalueView::MakeClosure { function, signature, captures },
            },
        ).state_of(captures[k].local) == Some(LocalState::Moved),
{
    reveal(LowerState::pushed);
    let value = RvalueView::MakeClosure { function, signature, captures };
    checks_keep_the_outline(state, local, value);
    let cleared = state.rejecting_arc_storage(value).rejecting_loan_storage(
        value,
    ).rejecting_guard_storage(local, value).without_arc_loan(local).without_loans_of(local);
    let bound = cleared.binding_value(local, value);
    bound_values_keep_the_outline(cleared, local, value);
    drops_keep_the_outline(bound, local);
    let stored = bound.reassigning(local).binding_locks(local, value).with_state(
        local,
        LocalState::Initialized,
    );
    assert(stored.states.len() == state.states.len());
    captures_stay_moved(stored, captures, 0, captures[k].local);
}

} // verus!
