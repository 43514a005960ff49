//! What an instruction does to loans, locks and ownership when it is added.

use vstd::prelude::*;

use crate::diag::Span;
use crate::lower::context::LowerCtx;
use crate::lower::kinds::type_has_drop_glue;
use crate::lower::state::{
    capture_types, owned_operands, stored_operands, typed_captures, ArcLoan, LocalState,
    LowerState,
};
use crate::mir::{
    owned_captures_view, BorrowKind, CaptureTransfer, ClosureCapture, LocalId, MirInst, MirValue,
    Rvalue,
};
use crate::table::value_of;
use crate::text::concat3;
use crate::thread_safety::{
    captures_view, CallableCaptureProvenance, CallableSendProvenance, CaptureProvenanceView,
};
use crate::types::{Mutability, Type};

verus! {

broadcast use vstd::std_specs::hash::group_hash_axioms;

/// An operand and the place that it is stored in.
struct StoredOperand {
    value: MirValue,
    place: &'static str,
}

spec fn stored_view(stored: Seq<StoredOperand>) -> Seq<(MirValue, Seq<char>)> {
    Seq::new(stored.len(), |i: int| (stored[i].value, stored[i].place@))
}

fn one_stored(value: MirValue, place: &'static str) -> (stored: Vec<StoredOperand>)
    ensures
        stored_view(stored@) == seq![(value, place@)],
{
    let stored = vec![StoredOperand { value, place }];
    assert(stored_view(stored@) =~= seq![(value, place@)]);
    stored
}

fn two_stored(first: MirValue, second: MirValue, place: &'static str) -> (stored: Vec<StoredOperand>)
    ensures
        stored_view(stored@) == seq![(first, place@), (second, place@)],
{
    let stored = vec![
        StoredOperand { value: first, place },
        StoredOperand { value: second, place },
    ];
    assert(stored_view(stored@) =~= seq![(first, place@), (second, place@)]);
    stored
}

/// The operands that an rvalue stores, and where.
fn stored_by(value: &Rvalue) -> (stored: Vec<StoredOperand>)
    ensures
        stored_view(stored@) == stored_operands(value@),
{
    match value {
        Rvalue::StructLit { field_values, .. } => {
            let mut stored: Vec<StoredOperand> = Vec::new();
            let mut i: usize = 0;
            while i < field_values.len()
                invariant
                    i <= field_values.len(),
                    stored.len() == i,
                    forall|j: int|
                        0 <= j < i ==> (#[trigger] stored@[j]).value == field_values@[j].1
                            && stored@[j].place@ == "an aggregate"@,
                decreases field_values.len() - i,
            {
                stored.push(StoredOperand { value: field_values[i].1, place: "an aggregate" });
                i += 1;
            }
            assert(stored_view(stored@) =~= stored_operands(value@));
            stored
        },
        Rvalue::ArrayLit { elements, .. } => {
            let mut stored: Vec<StoredOperand> = Vec::new();
            let mut i: usize = 0;
            while i < elements.len()
                invariant
                    i <= elements.len(),
                    stored.len() == i,
                    forall|j: int|
                        0 <= j < i ==> (#[trigger] stored@[j]).value == elements@[j]
                            && stored@[j].place@ == "an array"@,
                decreases elements.len() - i,
            {
                stored.push(StoredOperand { value: elements[i], place: "an array" });
                i += 1;
            }
            assert(stored_view(stored@) =~= stored_operands(value@));
            stored
        },
        Rvalue::EnumConstruct { payload: Some(payload), .. } => one_stored(
            *payload,
            "an enum payload",
        ),
        Rvalue::VecPush { value, .. } => one_stored(*value, "a Vec"),
        Rvalue::MapAdd { key, value, .. } => two_stored(*key, *value, "a Map"),
        Rvalue::MapUpdate { key, value, .. } => two_stored(*key, *value, "a Map"),
        Rvalue::OwnNew { value, .. } => one_stored(*value, "an Own allocation"),
        Rvalue::SharedNew { value, .. } => one_stored(*value, "a Shared allocation"),
        Rvalue::ArcNew { value, .. } => one_stored(*value, "an Arc allocation"),
        Rvalue::MutexNew { value, .. } => one_stored(*value, "a Mutex allocation"),
        _ => {
            let stored: Vec<StoredOperand> = Vec::new();
            assert(stored_view(stored@) =~= Seq::empty());
            assert(stored_operands(value@) =~= Seq::empty());
            stored
        },
    }
}

/// The operands that an rvalue takes ownership of.
fn owned_by(value: &Rvalue) -> (owned: Vec<MirValue>)
    ensures
        owned@ == owned_operands(value@),
{
    match value {
        Rvalue::StructLit { field_values, .. } => {
            let mut owned: Vec<MirValue> = Vec::new();
            let mut i: usize = 0;
            while i < field_values.len()
                invariant
                    i <= field_values.len(),
                    owned.len() == i,
                    forall|j: int| 0 <= j < i ==> (#[trigger] owned@[j]) == field_values@[j].1,
                decreases field_values.len() - i,
            {
                owned.push(field_values[i].1);
                i += 1;
            }
            assert(owned@ =~= owned_operands(value@));
            owned
        },
        Rvalue::VecPush { value, .. } => vec![*value],
        Rvalue::EnumConstruct { payload: Some(payload), .. } => vec![*payload],
        Rvalue::ArcNew { value, .. } => vec![*value],
        Rvalue::MutexNew { value, .. } => vec![*value],
        Rvalue::MapAdd { key, value, .. } => vec![*key, *value],
        Rvalue::MapUpdate { key, value, .. } => vec![*key, *value],
        _ => Vec::new(),
    }
}

/// What must not be stored.
impl<'a> LowerCtx<'a> {
    fn arc_loan_of(&self, local: LocalId) -> (loan: Option<ArcLoan>)
        ensures
            loan == value_of(self@.arc_loans, local.0),
    {
        match self.arc_loans.get(local.0) {
            Some(loan) => Some(*loan),
            None => None,
        }
    }

    fn arc_loan_for_value(&self, value: &MirValue) -> (loan: Option<ArcLoan>)
        ensures
            loan == self@.arc_loan_of(*value),
    {
        match value {
            MirValue::Local(local) => self.arc_loan_of(*local),
            _ => None,
        }
    }

    fn reject_stored_arcs(&mut self, stored: &Vec<StoredOperand>)
        ensures
            final(self)@ == old(self)@.rejecting_stored_arcs(stored_view(stored@), 0),
    {
        let ghost views = stored_view(stored@);
        let mut i: usize = 0;
        while i < stored.len()
            invariant
                i <= stored.len(),
                views == stored_view(stored@),
                views.len() == stored.len(),
                self@.rejecting_stored_arcs(views, i as int) == old(self)@.rejecting_stored_arcs(
                    views,
                    0,
                ),
            decreases stored.len() - i,
        {
            match self.arc_loan_for_value(&stored[i].value) {
                Some(loan) => {
                    let message = concat3(
                        "an Arc::borrow() reference cannot be stored in ",
                        stored[i].place,
                        "; keep it in a direct lexical binding",
                    );
                    self.error(message.as_str(), Some(loan.origin));
                },
                None => {},
            }
            i += 1;
        }
    }

    fn reject_captured_arcs(&mut self, captures: &Vec<ClosureCapture>)
        ensures
            final(self)@ == old(self)@.rejecting_captured_arcs(owned_captures_view(captures@), 0),
    {
        let ghost views = owned_captures_view(captures@);
        let mut i: usize = 0;
        while i < captures.len()
            invariant
                i <= captures.len(),
                views == owned_captures_view(captures@),
                views.len() == captures.len(),
                self@.rejecting_captured_arcs(views, i as int) == old(
                    self,
                )@.rejecting_captured_arcs(views, 0),
            decreases captures.len() - i,
        {
            let capture = &captures[i];
            assert(views[i as int] == capture@);
            match self.arc_loan_of(capture.local) {
                Some(loan) => {
                    self.error(
                        "an Arc::borrow() reference cannot be captured by a closure; borrow inside the closure from an owned Arc clone instead",
                        Some(loan.origin),
                    );
                },
                None => {},
            }
            if capture.transfer == CaptureTransfer::Move {
                let _ = self.validate_arc_owner_invalidation(
                    capture.local,
                    "move into a closure",
                    None,
                );
            }
            i += 1;
        }
    }

    pub fn reject_arc_loan_storage(&mut self, value: &Rvalue)
        ensures
            final(self)@ == old(self)@.rejecting_arc_storage(value@),
    {
        match value {
            Rvalue::MakeClosure { captures, .. } => self.reject_captured_arcs(captures),
            Rvalue::ArcNew { .. } | Rvalue::MutexNew { .. } => {},
            _ => {
                let stored = stored_by(value);
                self.reject_stored_arcs(&stored);
            },
        }
    }

    pub fn reject_lexical_loan_value_storage(&mut self, value: &MirValue, destination: &str)
        ensures
            final(self)@ == old(self)@.rejecting_stored_loan(*value, destination@),
    {
        if self.value_has_lexical_loan(value) {
            let message = concat3(
                "a borrowed reference or callable cannot be stored in ",
                destination,
                "; keep it in a direct lexical binding",
            );
            self.error(message.as_str(), None);
        }
    }

    fn reject_captured_loans(&mut self, captures: &Vec<ClosureCapture>)
        ensures
            final(self)@ == old(self)@.rejecting_captured_loans(owned_captures_view(captures@), 0),
    {
        let ghost views = owned_captures_view(captures@);
        let mut i: usize = 0;
        while i < captures.len()
            invariant
                i <= captures.len(),
                views == owned_captures_view(captures@),
                views.len() == captures.len(),
                self@.rejecting_captured_loans(views, i as int) == old(
                    self,
                )@.rejecting_captured_loans(views, 0),
            decreases captures.len() - i,
        {
            assert(views[i as int] == captures@[i as int]@);
            if self.is_borrowed_local(captures[i].local) {
                self.error(
                    "a borrowed reference or callable cannot be captured by an owned closure",
                    None,
                );
            }
            i += 1;
        }
    }

    pub fn reject_lexical_loan_storage(&mut self, value: &Rvalue)
        ensures
            final(self)@ == old(self)@.rejecting_loan_storage(value@),
    {
        match value {
            Rvalue::MakeClosure { captures, .. } => self.reject_captured_loans(captures),
            _ => {
                let stored = stored_by(value);
                let ghost views = stored_view(stored@);
                let mut i: usize = 0;
                while i < stored.len()
                    invariant
                        i <= stored.len(),
                        views == stored_view(stored@),
                        views.len() == stored.len(),
                        self@.rejecting_stored_loans(views, i as int) == old(
                            self,
                        )@.rejecting_stored_loans(views, 0),
                    decreases stored.len() - i,
                {
                    self.reject_lexical_loan_value_storage(&stored[i].value, stored[i].place);
                    i += 1;
                }
            },
        }
    }

    fn reject_captured_guards(&mut self, captures: &Vec<ClosureCapture>)
        ensures
            final(self)@ == old(self)@.rejecting_captured_guards(owned_captures_view(captures@), 0),
    {
        let ghost views = owned_captures_view(captures@);
        let mut i: usize = 0;
        while i < captures.len()
            invariant
                i <= captures.len(),
                views == owned_captures_view(captures@),
                views.len() == captures.len(),
                self@.rejecting_captured_guards(views, i as int) == old(
                    self,
                )@.rejecting_captured_guards(views, 0),
            decreases captures.len() - i,
        {
            assert(views[i as int] == captures@[i as int]@);
            let local = captures[i].local;
            if self.mutex_loans.contains_key(local.0) || self.has_guard_type(local) {
                self.error("MutexGuard cannot be captured by a closure", None);
            }
            i += 1;
        }
    }

    fn reject_stored_guards(&mut self, stored: &Vec<StoredOperand>)
        ensures
            final(self)@ == old(self)@.rejecting_stored_guards(stored_view(stored@), 0),
    {
        let ghost views = stored_view(stored@);
        let mut i: usize = 0;
        while i < stored.len()
            invariant
                i <= stored.len(),
                views == stored_view(stored@),
                views.len() == stored.len(),
                self@.rejecting_stored_guards(views, i as int) == old(
                    self,
                )@.rejecting_stored_guards(views, 0),
            decreases stored.len() - i,
        {
            if self.value_contains_mutex_guard(&stored[i].value) {
                let message = concat3(
                    "MutexGuard cannot be stored in ",
                    stored[i].place,
                    "; keep it in a direct lexical binding",
                );
                self.error(message.as_str(), None);
            }
            i += 1;
        }
    }

    pub fn reject_mutex_guard_storage(&mut self, destination: LocalId, value: &Rvalue)
        ensures
            final(self)@ == old(self)@.rejecting_guard_storage(destination, value@),
    {
        match value {
            Rvalue::MakeClosure { captures, .. } => {
                self.reject_captured_guards(captures);
                return;
            },
            Rvalue::EnumConstruct { .. } => {
                if self.mutex_try_option_locals.contains(&destination.0) {
                    return;
                }
            },
            _ => {},
        }
        let stored = stored_by(value);
        self.reject_stored_guards(&stored);
    }

    pub fn reject_mutex_guard_field_storage(&mut self, value: &Rvalue)
        ensures
            final(self)@ == old(self)@.rejecting_field_guard(value@),
    {
        match value {
            Rvalue::Move(source) => {
                if self.value_contains_mutex_guard(&MirValue::Local(*source)) {
                    self.error(
                        "MutexGuard cannot be stored in a struct field; keep it in a direct lexical binding",
                        None,
                    );
                }
            },
            _ => {},
        }
    }

    pub fn reject_lexical_loan_field_storage(&mut self, value: &Rvalue)
        ensures
            final(self)@ == old(self)@.rejecting_field_loan(value@),
    {
        match value {
            Rvalue::Move(source) => {
                self.reject_lexical_loan_value_storage(
                    &MirValue::Local(*source),
                    "a struct field",
                );
            },
            _ => {},
        }
    }

    pub fn reject_lexical_loan_return(&mut self, value: Option<&MirValue>, span: Span)
        ensures
            final(self)@ == old(self)@.rejecting_returned_loan(
                match value {
                    Some(value) => Some(*value),
                    None => None,
                },
                span,
            ),
    {
        match value {
            Some(value) => {
                if self.value_has_lexical_loan(value) {
                    self.error(
                        "a borrowed reference or callable cannot escape through return",
                        Some(span),
                    );
                }
            },
            None => {},
        }
    }

    pub fn reject_mutex_guard_return(&mut self, value: Option<&MirValue>, span: Span)
        ensures
            final(self)@ == old(self)@.rejecting_returned_guard(
                match value {
                    Some(value) => Some(*value),
                    None => None,
                },
                span,
            ),
    {
        match value {
            Some(value) => {
                if self.value_contains_mutex_guard(value) {
                    self.error(
                        "MutexGuard and references borrowed from it cannot escape through return",
                        Some(span),
                    );
                }
            },
            None => {},
        }
    }
}

/// What comes with an assigned value.
impl<'a> LowerCtx<'a> {
    pub(crate) fn insert_provenance(&mut self, local: LocalId, provenance: CallableSendProvenance)
        ensures
            final(self)@ == old(self)@.with_provenance(local, provenance@),
    {
        let ghost view = provenance@;
        self.callable_provenance.insert(local.0, provenance);
        assert(self@.provenance =~= old(self)@.provenance.insert(local.0, view));
    }

    fn move_provenance(&mut self, source: LocalId, destination: LocalId)
        ensures
            final(self)@ == old(self)@.with_moved_provenance(source, destination),
    {
        let _ = self.callable_provenance.move_to(&source.0, destination.0);
        assert(self@.provenance =~= old(self)@.with_moved_provenance(
            source,
            destination,
        ).provenance);
    }

    /// The thread-safety types of a closure's captures.
    fn capture_provenance(&mut self, captures: &Vec<ClosureCapture>) -> (parts: Vec<
        CallableCaptureProvenance,
    >)
        ensures
            ({
                let (typed, safety) = typed_captures(
                    old(self)@.safety,
                    capture_types(owned_captures_view(captures@)),
                    0,
                );
                captures_view(parts@) == typed && final(self)@ == (LowerState {
                    safety,
                    ..old(self)@
                })
            }),
    {
        let ghost types = capture_types(owned_captures_view(captures@));
        let ghost whole = typed_captures(self@.safety, types, 0);
        let mut parts: Vec<CallableCaptureProvenance> = Vec::new();
        let mut i: usize = 0;
        assert(captures_view(parts@) =~= Seq::empty());
        assert(whole.0 =~= Seq::<CaptureProvenanceView>::empty() + whole.0);
        while i < captures.len()
            invariant
                i <= captures.len(),
                types == capture_types(owned_captures_view(captures@)),
                types.len() == captures.len(),
                self@ == (LowerState { safety: self@.safety, ..old(self)@ }),
                ({
                    let rest = typed_captures(self@.safety, types, i as int);
                    whole == (captures_view(parts@) + rest.0, rest.1)
                }),
            decreases captures.len() - i,
        {
            let capture = &captures[i];
            let ghost before = captures_view(parts@);
            let ghost rest = typed_captures(self@.safety, types, i as int);
            assert(types[i as int] == (capture.name@, capture.ty@));
            let ty = self.safety.thread_safety_type(&capture.ty);
            let part = CallableCaptureProvenance::new(capture.name.as_str(), ty);
            let ghost next = typed_captures(self@.safety, types, i + 1);
            let ghost view = part@;
            assert(rest.0 == seq![view] + next.0);
            parts.push(part);
            assert(captures_view(parts@) =~= before + seq![view]);
            assert(captures_view(parts@) + next.0 =~= before + rest.0);
            i += 1;
        }
        assert(whole.0 =~= captures_view(parts@));
        parts
    }

    fn bind_moved(&mut self, local: LocalId, source: LocalId)
        ensures
            final(self)@ == old(self)@.binding_moved(local, source),
    {
        if self.is_fn_mut_local(source) {
            self.error(
                "an FnMut callable cannot be assigned or aliased; pass or call it directly",
                None,
            );
        }
        self.move_provenance(source, local);
        match self.arc_loan_of(source) {
            Some(loan) => {
                if self.scope_depth(local, loan.creation_scope) < loan.creation_scope {
                    self.error(
                        "an Arc::borrow() reference cannot escape the lexical scope where it was created",
                        Some(loan.origin),
                    );
                }
                self.arc_loans.insert(local.0, loan);
            },
            None => {},
        }
        self.propagate_lexical_loans(source, local);
    }

    fn bind_value(&mut self, local: LocalId, value: &Rvalue)
        ensures
            final(self)@ == old(self)@.binding_value(local, value@),
    {
        match value {
            Rvalue::Ref { base, mutability } => {
                let kind = if *mutability == Mutability::Mutable {
                    BorrowKind::Mutable
                } else {
                    BorrowKind::Shared
                };
                self.register_lexical_loan(local, *base, kind, Span::new(0, 0));
            },
            Rvalue::MakeBorrowedClosure { captures, .. } => {
                self.known_borrowed_callables.insert(local.0);
                self.register_captures(local, captures);
            },
            Rvalue::FunctionRef { name, signature } => {
                match signature {
                    Type::BorrowedFunction { .. } => {
                        self.known_borrowed_callables.insert(local.0);
                    },
                    _ => {},
                }
                self.insert_provenance(
                    local,
                    CallableSendProvenance::FunctionItem { symbol: name.clone() },
                );
            },
            Rvalue::MakeClosure { function, captures, .. } => {
                let parts = self.capture_provenance(captures);
                self.insert_provenance(
                    local,
                    CallableSendProvenance::OwnedClosure {
                        origin: function.clone(),
                        captures: parts,
                    },
                );
            },
            Rvalue::Move(source) => self.bind_moved(local, *source),
            _ => {},
        }
    }

    fn bind_locks(&mut self, local: LocalId, value: &Rvalue)
        ensures
            final(self)@ == old(self)@.binding_locks(local, value@),
    {
        match value {
            Rvalue::Move(source) => self.transfer_mutex_provenance(*source, local),
            Rvalue::EnumPayload { base, payload_type, .. } => {
                if payload_type.is_mutex_guard() {
                    self.transfer_mutex_provenance(*base, local);
                }
            },
            _ => {},
        }
    }

    fn move_into(&mut self, local: LocalId, source: LocalId)
        ensures
            final(self)@ == old(self)@.moving_into(local, source),
    {
        let was_moved = self.is_in_state(source, LocalState::Moved);
        self.set_state(source, LocalState::Moved);
        if was_moved && !self.local_uses_ownership_tracking(source) {
            self.set_state(local, LocalState::Moved);
        }
        if self.skips_drop(source) {
            self.mark_skip_drop(local);
        }
    }

    fn move_operands(&mut self, operands: &Vec<MirValue>)
        ensures
            final(self)@ == old(self)@.moving_operands(operands@, 0),
    {
        let mut i: usize = 0;
        while i < operands.len()
            invariant
                i <= operands.len(),
                self@.moving_operands(operands@, i as int) == old(self)@.moving_operands(
                    operands@,
                    0,
                ),
            decreases operands.len() - i,
        {
            match operands[i] {
                MirValue::Local(source) => {
                    if self.is_droppable(source) {
                        self.set_state(source, LocalState::Moved);
                    }
                },
                _ => {},
            }
            i += 1;
        }
    }

    fn move_captures(&mut self, captures: &Vec<ClosureCapture>)
        ensures
            final(self)@ == old(self)@.moving_captures(owned_captures_view(captures@), 0),
    {
        let ghost views = owned_captures_view(captures@);
        let mut i: usize = 0;
        while i < captures.len()
            invariant
                i <= captures.len(),
                views == owned_captures_view(captures@),
                views.len() == captures.len(),
                self@.moving_captures(views, i as int) == old(self)@.moving_captures(views, 0),
            decreases captures.len() - i,
        {
            assert(views[i as int] == captures@[i as int]@);
            if captures[i].transfer == CaptureTransfer::Move {
                self.set_state(captures[i].local, LocalState::Moved);
            }
            i += 1;
        }
    }

    /// Ownership transfers of an rvalue that consumes its operands or gives a
    /// snapshot of what others own.
    pub fn track_rvalue_ownership(&mut self, value: &Rvalue, dest: LocalId)
        ensures
            final(self)@ == old(self)@.transferring(value@, dest),
    {
        match value {
            Rvalue::VecPush { .. } => {
                self.set_state(dest, LocalState::Moved);
                let owned = owned_by(value);
                self.move_operands(&owned);
            },
            Rvalue::StructLit { .. }
            | Rvalue::EnumConstruct { .. }
            | Rvalue::ArcNew { .. }
            | Rvalue::MutexNew { .. }
            | Rvalue::MapAdd { .. }
            | Rvalue::MapUpdate { .. } => {
                let owned = owned_by(value);
                self.move_operands(&owned);
            },
            Rvalue::CallIndirect { callee, .. } => self.set_state(*callee, LocalState::Moved),
            Rvalue::ThreadHandleIntoRaw { handle } => self.set_state(*handle, LocalState::Moved),
            Rvalue::SpscTrySend { value: sent, .. } => self.set_state(*sent, LocalState::Moved),
            Rvalue::MakeClosure { captures, .. } => self.move_captures(captures),
            Rvalue::VecIndex { elem_type, .. } => {
                if type_has_drop_glue(elem_type) {
                    self.mark_skip_drop(dest);
                }
            },
            Rvalue::MapGet { value_type, .. } => {
                if type_has_drop_glue(value_type) {
                    self.mark_skip_drop(dest);
                }
            },
            Rvalue::FieldAccess { .. } => {
                if self.is_droppable(dest) {
                    self.mark_skip_drop(dest);
                }
            },
            Rvalue::EnumPayload { base, .. } => {
                if self.skips_drop(*base) {
                    self.mark_skip_drop(dest);
                }
            },
            _ => {},
        }
    }

    fn record_assign(&mut self, local: LocalId, value: &Rvalue)
        ensures
            final(self)@ == old(self)@.assigning(local, value@),
    {
        self.reject_arc_loan_storage(value);
        self.reject_lexical_loan_storage(value);
        self.reject_mutex_guard_storage(local, value);
        self.release_arc_loan(local);
        self.release_lexical_loans_for_holder(local);
        self.bind_value(local, value);
        self.handle_reassign(local);
        self.bind_locks(local, value);
        self.set_state(local, LocalState::Initialized);
        match value {
            Rvalue::Move(source) => self.move_into(local, *source),
            _ => {},
        }
        self.track_rvalue_ownership(value, local);
    }

    fn record_store(&mut self, value: &Rvalue, in_field: bool)
        ensures
            final(self)@ == old(self)@.storing(value@, in_field),
    {
        self.reject_mutex_guard_field_storage(value);
        self.reject_lexical_loan_field_storage(value);
        match value {
            Rvalue::Move(source) => {
                if in_field {
                    match self.arc_loan_of(*source) {
                        Some(loan) => {
                            self.error(
                                "an Arc::borrow() reference cannot be stored in a struct field; keep it in a direct lexical binding",
                                Some(loan.origin),
                            );
                        },
                        None => {},
                    }
                }
                self.set_state(*source, LocalState::Moved);
            },
            _ => {},
        }
    }

    /// Adds an instruction to the current block, after recording what it does to
    /// loans, locks and ownership.
    pub fn push_inst(&mut self, inst: MirInst)
        ensures
            final(self)@ == old(self)@.pushed(inst@),
    {
        proof {
            reveal(LowerState::pushed);
        }
        match &inst {
            MirInst::Assign { local, value } => self.record_assign(*local, value),
            MirInst::AssignField { value, .. } => self.record_store(value, true),
            MirInst::AssignIndex { value, .. } => self.record_store(value, false),
            _ => {},
        }
        self.emit(inst);
    }

    /// Assigns a value to a local.
    pub fn assign(&mut self, local: LocalId, value: Rvalue)
        ensures
            final(self)@ == old(self)@.assigned(local, value@),
    {
        self.push_inst(MirInst::Assign { local, value });
    }
}

} // verus!
