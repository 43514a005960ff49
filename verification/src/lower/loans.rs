//! Loans: who borrows which local, and what that forbids.

use vstd::prelude::*;

use crate::diag::Span;
use crate::lower::context::LowerCtx;
use crate::lower::kinds::type_contains_mutex_guard;
use crate::lower::state::{
    arc_loan_on, guard_borrow_on, held_by, held_by_others, is_fn_mut, loan_on, lock_on, or_origin,
    reserved_loans, tasks_of_others, ArcLoan, HeldLoan, LexicalLoan, LowerState, MutexGuardBorrow,
    MutexLoan,
};
use crate::mir::{borrowed_captures_view, BorrowKind, BorrowedClosureCapture, LocalId, MirValue};
use crate::text::{concat3, concat5, concat7};
use crate::types::{BorrowedCallableKind, Type};

verus! {

broadcast use vstd::std_specs::hash::group_hash_axioms;

fn find_loan(loans: &Vec<HeldLoan>, owner: LocalId, exclusive: bool) -> (found: Option<LexicalLoan>)
    ensures
        found == loan_on(loans@, owner, exclusive, 0),
{
    let mut i: usize = 0;
    while i < loans.len()
        invariant
            i <= loans.len(),
            loan_on(loans@, owner, exclusive, i as int) == loan_on(loans@, owner, exclusive, 0),
        decreases loans.len() - i,
    {
        let loan = loans[i].loan;
        if loan.owner == owner && (!exclusive || loan.kind == BorrowKind::Mutable) {
            return Some(loan);
        }
        i += 1;
    }
    None
}

pub(crate) fn loans_held_by(loans: &Vec<HeldLoan>, holder: LocalId) -> (held: Vec<LexicalLoan>)
    ensures
        held@ == held_by(loans@, holder, 0),
{
    let mut held: Vec<LexicalLoan> = Vec::new();
    let mut i: usize = 0;
    assert(held_by(loans@, holder, 0) =~= held@ + held_by(loans@, holder, 0));
    while i < loans.len()
        invariant
            i <= loans.len(),
            held@ + held_by(loans@, holder, i as int) == held_by(loans@, holder, 0),
        decreases loans.len() - i,
    {
        let ghost before = held@;
        let ghost rest = held_by(loans@, holder, i + 1);
        if loans[i].holder == holder {
            held.push(loans[i].loan);
        }
        assert(held@ + rest =~= before + held_by(loans@, holder, i as int));
        i += 1;
    }
    assert(held@ =~= held_by(loans@, holder, 0));
    held
}

pub(crate) fn loans_of_others(loans: &Vec<HeldLoan>, holder: LocalId) -> (held: Vec<HeldLoan>)
    ensures
        held@ == held_by_others(loans@, holder, 0),
{
    let mut held: Vec<HeldLoan> = Vec::new();
    let mut i: usize = 0;
    assert(held_by_others(loans@, holder, 0) =~= held@ + held_by_others(loans@, holder, 0));
    while i < loans.len()
        invariant
            i <= loans.len(),
            held@ + held_by_others(loans@, holder, i as int) == held_by_others(loans@, holder, 0),
        decreases loans.len() - i,
    {
        let ghost before = held@;
        let ghost rest = held_by_others(loans@, holder, i + 1);
        if loans[i].holder != holder {
            held.push(loans[i]);
        }
        assert(held@ + rest =~= before + held_by_others(loans@, holder, i as int));
        i += 1;
    }
    assert(held@ =~= held_by_others(loans@, holder, 0));
    held
}

pub(crate) fn other_tasks(tasks: &Vec<(LocalId, LocalId)>, scope: LocalId) -> (others: Vec<
    (LocalId, LocalId),
>)
    ensures
        others@ == tasks_of_others(tasks@, scope, 0),
{
    let mut others: Vec<(LocalId, LocalId)> = Vec::new();
    let mut i: usize = 0;
    assert(tasks_of_others(tasks@, scope, 0) =~= others@ + tasks_of_others(tasks@, scope, 0));
    while i < tasks.len()
        invariant
            i <= tasks.len(),
            others@ + tasks_of_others(tasks@, scope, i as int) == tasks_of_others(tasks@, scope, 0),
        decreases tasks.len() - i,
    {
        let ghost before = others@;
        let ghost rest = tasks_of_others(tasks@, scope, i + 1);
        if tasks[i].0 != scope {
            others.push(tasks[i]);
        }
        assert(others@ + rest =~= before + tasks_of_others(tasks@, scope, i as int));
        i += 1;
    }
    assert(others@ =~= tasks_of_others(tasks@, scope, 0));
    others
}

/// A place in the source, or the one where a loan began.
pub(crate) fn place_or(span: Option<Span>, origin: Span) -> (place: Option<Span>)
    ensures
        place == or_origin(span, origin),
{
    match span {
        Some(span) => Some(span),
        None => Some(origin),
    }
}

/// Reading loans.
impl<'a> LowerCtx<'a> {
    pub fn lexical_loan_root(&self, local: LocalId) -> (root: LocalId)
        ensures
            root == self@.loan_root(local),
    {
        let held = loans_held_by(&self.lexical_loans, local);
        if held.len() > 0 {
            held[0].owner
        } else {
            local
        }
    }

    pub fn holds_lexical_loan(&self, local: LocalId) -> (holds: bool)
        ensures
            holds == self@.holds_loan(local),
    {
        loans_held_by(&self.lexical_loans, local).len() > 0
    }

    fn active_loan(&self, owner: LocalId, exclusive: bool) -> (found: Option<LexicalLoan>)
        ensures
            found == self@.active_loan(owner, exclusive),
    {
        match find_loan(&self.lexical_loans, owner, exclusive) {
            Some(loan) => Some(loan),
            None => find_loan(&self.scoped_loan_reservations, owner, exclusive),
        }
    }

    /// A live loan on `owner`.
    pub fn active_lexical_loan(&self, owner: LocalId) -> (found: Option<LexicalLoan>)
        ensures
            found == self@.active_loan(owner, false),
    {
        self.active_loan(owner, false)
    }

    /// A live exclusive loan on `owner`.
    pub fn active_exclusive_loan(&self, owner: LocalId) -> (found: Option<LexicalLoan>)
        ensures
            found == self@.active_loan(owner, true),
    {
        self.active_loan(owner, true)
    }

    pub fn arc_conflict(&self, owner: LocalId) -> (found: Option<ArcLoan>)
        ensures
            found == self@.arc_conflict(owner),
    {
        match self.local_ty(owner) {
            Some(ty) => {
                if !ty.is_arc() {
                    return None;
                }
            },
            None => {
                return None;
            },
        }
        let mut i: usize = 0;
        while i < self.arc_loans.len()
            invariant
                i <= self.arc_loans@.len(),
                arc_loan_on(self@.arc_loans, owner, i as int) == self@.arc_conflict(owner),
            decreases self.arc_loans@.len() - i,
        {
            let loan: ArcLoan = *self.arc_loans.value_at(i);
            if loan.owner == owner {
                return Some(loan);
            }
            i += 1;
        }
        None
    }

    fn lock_on_owner(&self, owner: LocalId) -> (found: Option<usize>)
        ensures
            match found {
                Some(i) => i < self@.locks.len() && lock_on(self@.locks, owner, 0) == Some(i as int),
                None => lock_on(self@.locks, owner, 0) is None,
            },
    {
        let mut i: usize = 0;
        while i < self.mutex_loans.len()
            invariant
                i <= self.mutex_loans@.len(),
                lock_on(self@.locks, owner, i as int) == lock_on(self@.locks, owner, 0),
            decreases self.mutex_loans@.len() - i,
        {
            if self.mutex_loans.value_at(i).owner == owner {
                return Some(i);
            }
            i += 1;
        }
        None
    }

    fn borrow_of_guard(&self, guard: LocalId) -> (found: Option<MutexGuardBorrow>)
        ensures
            found == guard_borrow_on(self@.guard_borrows, guard, 0),
    {
        let mut i: usize = 0;
        while i < self.mutex_guard_borrows.len()
            invariant
                i <= self.mutex_guard_borrows@.len(),
                guard_borrow_on(self@.guard_borrows, guard, i as int) == guard_borrow_on(
                    self@.guard_borrows,
                    guard,
                    0,
                ),
            decreases self.mutex_guard_borrows@.len() - i,
        {
            let borrow: MutexGuardBorrow = *self.mutex_guard_borrows.value_at(i);
            if borrow.guard == guard {
                return Some(borrow);
            }
            i += 1;
        }
        None
    }

    pub fn has_guard_type(&self, local: LocalId) -> (holds: bool)
        ensures
            holds == self@.has_guard_type(local),
    {
        match self.local_ty(local) {
            Some(ty) => type_contains_mutex_guard(ty),
            None => false,
        }
    }

    pub fn value_contains_mutex_guard(&self, value: &MirValue) -> (holds: bool)
        ensures
            holds == self@.is_guarded_operand(*value),
    {
        match value {
            MirValue::Local(local) => self.mutex_loans.contains_key(local.0)
                || self.mutex_guard_borrows.contains_key(local.0) || self.has_guard_type(*local),
            _ => false,
        }
    }

    pub fn is_borrowed_local(&self, local: LocalId) -> (borrowed: bool)
        ensures
            borrowed == self@.is_borrowed_local(local),
    {
        if self.holds_lexical_loan(local) {
            return true;
        }
        match self.local_ty(local) {
            Some(ty) => match ty {
                Type::BorrowedFunction { .. } => true,
                _ => false,
            },
            None => false,
        }
    }

    pub fn value_has_lexical_loan(&self, value: &MirValue) -> (borrowed: bool)
        ensures
            borrowed == self@.is_borrowed_operand(*value),
    {
        match value {
            MirValue::Local(local) => self.is_borrowed_local(*local),
            _ => false,
        }
    }

    pub fn is_fn_mut_local(&self, local: LocalId) -> (exclusive: bool)
        ensures
            exclusive == is_fn_mut(self@.local_type(local)),
    {
        match self.local_ty(local) {
            Some(ty) => match ty {
                Type::BorrowedFunction { kind: BorrowedCallableKind::FnMut, .. } => true,
                _ => false,
            },
            None => false,
        }
    }
}

/// Conflicts and their reports.
impl<'a> LowerCtx<'a> {
    pub fn validate_arc_owner_invalidation(
        &mut self,
        owner: LocalId,
        action: &str,
        span: Option<Span>,
    ) -> (valid: bool)
        ensures
            valid == old(self)@.arc_conflict(owner) is None,
            final(self)@ == old(self)@.reporting_arc_conflict(owner, action@, span),
    {
        match self.arc_conflict(owner) {
            Some(loan) => {
                let name = self.shown_name(owner);
                let message = concat5(
                    "cannot ",
                    action,
                    " Arc owner `",
                    name.as_str(),
                    "` while an Arc::borrow() reference is active; the loan lasts until its binding's lexical scope ends",
                );
                self.error(message.as_str(), place_or(span, loan.origin));
                false
            },
            None => true,
        }
    }

    pub fn validate_lexical_owner_invalidation(
        &mut self,
        owner: LocalId,
        action: &str,
        span: Option<Span>,
    ) -> (valid: bool)
        ensures
            valid == old(self)@.active_loan(owner, false) is None,
            final(self)@ == old(self)@.reporting_loan(owner, action@, span),
    {
        match self.active_lexical_loan(owner) {
            Some(loan) => {
                let name = self.shown_name(owner);
                let kind = if loan.kind == BorrowKind::Mutable {
                    "exclusive"
                } else {
                    "shared"
                };
                let message = concat7(
                    "cannot ",
                    action,
                    " `",
                    name.as_str(),
                    "` while a ",
                    kind,
                    " loan is active",
                );
                self.error(message.as_str(), place_or(span, loan.origin));
                false
            },
            None => true,
        }
    }

    pub fn validate_lexical_owner_read(&mut self, owner: LocalId, span: Option<Span>) -> (valid: bool)
        ensures
            valid == old(self)@.active_loan(owner, true) is None,
            final(self)@ == old(self)@.reporting_read(owner, span),
    {
        match self.active_exclusive_loan(owner) {
            Some(loan) => {
                let name = self.shown_name(owner);
                let message = concat3(
                    "cannot use `",
                    name.as_str(),
                    "` while an exclusive loan is active",
                );
                self.error(message.as_str(), place_or(span, loan.origin));
                false
            },
            None => true,
        }
    }

    pub fn validate_mutex_owner_invalidation(
        &mut self,
        owner: LocalId,
        action: &str,
        span: Option<Span>,
    ) -> (valid: bool)
        ensures
            valid == lock_on(old(self)@.locks, owner, 0) is None,
            final(self)@ == old(self)@.reporting_lock(owner, action@, span),
    {
        match self.lock_on_owner(owner) {
            Some(i) => {
                let holder = LocalId(self.mutex_loans.key_at(i));
                let loan: MutexLoan = *self.mutex_loans.value_at(i);
                let owner_name = self.shown_name(owner);
                let guard_name = self.shown_name(holder);
                let message = concat7(
                    "cannot ",
                    action,
                    " Mutex owner `",
                    owner_name.as_str(),
                    "` while guard `",
                    guard_name.as_str(),
                    "` is live",
                );
                self.error(message.as_str(), place_or(span, loan.origin));
                self.note(
                    "the exclusive Mutex loan begins at this lock operation and lasts until the guard's lexical scope ends",
                    Some(loan.origin),
                );
                self.help(
                    "put the guard in a nested block so it unlocks before moving or dropping the Mutex",
                    place_or(span, loan.origin),
                );
                false
            },
            None => true,
        }
    }

    pub fn validate_mutex_guard_invalidation(
        &mut self,
        guard: LocalId,
        action: &str,
        span: Option<Span>,
    ) -> (valid: bool)
        ensures
            valid == guard_borrow_on(old(self)@.guard_borrows, guard, 0) is None,
            final(self)@ == old(self)@.reporting_guard_borrow(guard, action@, span),
    {
        match self.borrow_of_guard(guard) {
            Some(borrow) => {
                let name = self.shown_name(guard);
                let message = concat5(
                    "cannot ",
                    action,
                    " MutexGuard `",
                    name.as_str(),
                    "` while a reference borrowed from it is live",
                );
                self.error(message.as_str(), place_or(span, borrow.origin));
                false
            },
            None => true,
        }
    }

    pub fn validate_new_lexical_borrow(&mut self, base: LocalId, kind: BorrowKind, span: Span) -> (valid:
        bool)
        ensures
            valid == old(self)@.borrow_conflict(old(self)@.loan_root(base), kind) is None,
            final(self)@ == old(self)@.reporting_borrow(base, kind, span),
    {
        let owner = self.lexical_loan_root(base);
        match self.active_loan(owner, kind == BorrowKind::Shared) {
            Some(loan) => {
                let name = self.shown_name(owner);
                let head = if kind == BorrowKind::Shared {
                    "cannot immutably borrow `"
                } else {
                    "cannot mutably borrow `"
                };
                let tail = if loan.kind == BorrowKind::Shared {
                    "` while a shared loan is active"
                } else {
                    "` while an exclusive loan is active"
                };
                let message = concat3(head, name.as_str(), tail);
                self.error(message.as_str(), Some(span));
                false
            },
            None => true,
        }
    }

    /// Whether nothing that is alive depends on where a local's value is. The
    /// first conflict is reported.
    pub fn validate_movable(&mut self, local: LocalId, action: &str, span: Option<Span>) -> (valid:
        bool)
        ensures
            valid == old(self)@.is_movable(local),
            final(self)@ == (if valid {
                old(self)@
            } else {
                old(self)@.reporting_immovable(local, action@, span)
            }),
    {
        self.validate_arc_owner_invalidation(local, action, span)
            && self.validate_lexical_owner_invalidation(local, action, span)
            && self.validate_mutex_owner_invalidation(local, action, span)
            && self.validate_mutex_guard_invalidation(local, action, span)
    }
}

/// New loans and the end of old ones.
impl<'a> LowerCtx<'a> {
    pub fn register_lexical_loan(
        &mut self,
        holder: LocalId,
        base: LocalId,
        kind: BorrowKind,
        origin: Span,
    )
        ensures
            final(self)@ == old(self)@.registering_loan(holder, base, kind, origin),
    {
        let owner = self.lexical_loan_root(base);
        if !self.validate_new_lexical_borrow(base, kind, origin) {
            return;
        }
        let creation_scope: usize = self.scope_depth(holder, 0);
        if self.scope_depth(owner, 0) > creation_scope {
            self.error(
                "a borrowed reference or callable cannot escape to an outer lexical scope",
                Some(origin),
            );
        }
        self.lexical_loans.push(
            HeldLoan { holder, loan: LexicalLoan { owner, kind, creation_scope, origin } },
        );
    }

    pub fn register_captures(&mut self, holder: LocalId, captures: &Vec<BorrowedClosureCapture>)
        ensures
            final(self)@ == old(self)@.registering_captures(
                holder,
                borrowed_captures_view(captures@),
                0,
            ),
    {
        let ghost views = borrowed_captures_view(captures@);
        let mut i: usize = 0;
        while i < captures.len()
            invariant
                i <= captures.len(),
                views == borrowed_captures_view(captures@),
                self@.registering_captures(holder, views, i as int) == old(
                    self,
                )@.registering_captures(holder, views, 0),
            decreases captures.len() - i,
        {
            let capture = &captures[i];
            assert(views[i as int] == capture@);
            self.register_lexical_loan(holder, capture.local, capture.borrow, Span::new(0, 0));
            i += 1;
        }
    }

    pub fn propagate_lexical_loans(&mut self, source: LocalId, destination: LocalId)
        ensures
            final(self)@ == old(self)@.sharing_loans(
                held_by(old(self)@.loans, source, 0),
                destination,
                0,
            ),
    {
        let loans = loans_held_by(&self.lexical_loans, source);
        let mut i: usize = 0;
        while i < loans.len()
            invariant
                i <= loans.len(),
                self@.sharing_loans(loans@, destination, i as int) == old(self)@.sharing_loans(
                    loans@,
                    destination,
                    0,
                ),
            decreases loans.len() - i,
        {
            let loan = loans[i];
            if loan.kind == BorrowKind::Mutable {
                self.error(
                    "an FnMut or mutable reference cannot be aliased; pass it directly or create a shorter reborrow",
                    Some(loan.origin),
                );
            } else {
                let depth: usize = self.scope_depth(destination, 0);
                if depth < loan.creation_scope {
                    self.error(
                        "a borrowed reference or callable cannot escape the lexical scope where its loan was created",
                        Some(loan.origin),
                    );
                }
                self.lexical_loans.push(
                    HeldLoan {
                        holder: destination,
                        loan: LexicalLoan {
                            owner: loan.owner,
                            kind: loan.kind,
                            creation_scope: depth,
                            origin: loan.origin,
                        },
                    },
                );
            }
            i += 1;
        }
    }

    pub fn release_lexical_loans_for_holder(&mut self, holder: LocalId)
        ensures
            final(self)@ == old(self)@.without_loans_of(holder),
    {
        self.lexical_loans = loans_of_others(&self.lexical_loans, holder);
    }

    pub fn release_arc_loan(&mut self, holder: LocalId)
        ensures
            final(self)@ == old(self)@.without_arc_loan(holder),
    {
        self.arc_loans.remove(holder.0);
    }

    pub fn release_temporary_call_loan(&mut self, holder: LocalId)
        ensures
            final(self)@ == old(self)@.without_temporary(holder),
    {
        self.release_lexical_loans_for_holder(holder);
        self.release_arc_loan(holder);
    }

    pub fn release_temporary_call_loans(&mut self, holders: &Vec<LocalId>)
        ensures
            final(self)@ == old(self)@.without_temporaries(holders@, 0),
    {
        let mut i: usize = 0;
        while i < holders.len()
            invariant
                i <= holders.len(),
                self@.without_temporaries(holders@, i as int) == old(self)@.without_temporaries(
                    holders@,
                    0,
                ),
            decreases holders.len() - i,
        {
            self.release_temporary_call_loan(holders[i]);
            i += 1;
        }
    }

    pub fn release_lexical_loans_for_locals(&mut self, locals: &Vec<LocalId>)
        ensures
            final(self)@ == old(self)@.without_loans(locals@, 0),
    {
        let mut i: usize = 0;
        while i < locals.len()
            invariant
                i <= locals.len(),
                self@.without_loans(locals@, i as int) == old(self)@.without_loans(locals@, 0),
            decreases locals.len() - i,
        {
            self.release_lexical_loans_for_holder(locals[i]);
            i += 1;
        }
    }

    pub fn release_arc_loans_for_locals(&mut self, locals: &Vec<LocalId>)
        ensures
            final(self)@ == old(self)@.without_arc_loans(locals@, 0),
    {
        let mut i: usize = 0;
        while i < locals.len()
            invariant
                i <= locals.len(),
                self@.without_arc_loans(locals@, i as int) == old(self)@.without_arc_loans(
                    locals@,
                    0,
                ),
            decreases locals.len() - i,
        {
            self.release_arc_loan(locals[i]);
            i += 1;
        }
    }

    pub fn release_mutex_provenance_for_local(&mut self, local: LocalId)
        ensures
            final(self)@ == old(self)@.without_lock(local),
    {
        self.mutex_loans.remove(local.0);
        self.mutex_guard_borrows.remove(local.0);
        self.mutex_try_option_locals.remove(&local.0);
        self.release_lexical_loans_for_holder(local);
    }

    pub fn register_arc_borrow(&mut self, reference: LocalId, owner: LocalId, origin: Span)
        ensures
            final(self)@ == old(self)@.registering_arc_borrow(reference, owner, origin),
    {
        proof {
            reveal(LowerState::registering_arc_borrow);
        }
        self.register_lexical_loan(reference, owner, BorrowKind::Shared, origin);
        let creation_scope: usize = self.scope_depth(reference, 0);
        self.arc_loans.insert(reference.0, ArcLoan { owner, creation_scope, origin });
    }

    pub fn reject_arc_loan_scope_escape(&mut self, local: LocalId)
        ensures
            final(self)@ == old(self)@.rejecting_arc_escape(local),
    {
        let loan: ArcLoan = match self.arc_loans.get(local.0) {
            Some(loan) => *loan,
            None => {
                return;
            },
        };
        let depth: usize = self.scope_stack.len();
        let current_scope: usize = if depth == 0 {
            0
        } else {
            depth - 1
        };
        if loan.creation_scope == current_scope {
            self.error(
                "an Arc::borrow() reference cannot escape the lexical scope where it was created",
                Some(loan.origin),
            );
        }
    }

    pub fn register_mutex_guard(&mut self, holder: LocalId, owner: LocalId, origin: Span)
        ensures
            final(self)@ == old(self)@.registering_guard(holder, owner, origin),
    {
        proof {
            reveal(LowerState::registering_guard);
        }
        let creation_scope: usize = self.scope_depth(holder, 0);
        if self.scope_depth(owner, 0) > creation_scope {
            self.error("a MutexGuard cannot outlive the Mutex binding it locks", Some(origin));
        }
        self.mutex_loans.insert(holder.0, MutexLoan { owner, creation_scope, origin });
    }

    pub fn register_mutex_guard_borrow(&mut self, reference: LocalId, guard: LocalId, origin: Span)
        ensures
            final(self)@ == old(self)@.registering_guard_borrow(reference, guard, origin),
    {
        proof {
            reveal(LowerState::registering_guard_borrow);
        }
        let creation_scope: usize = self.scope_depth(reference, 0);
        self.mutex_guard_borrows.insert(
            reference.0,
            MutexGuardBorrow { guard, creation_scope, origin },
        );
    }

    pub fn transfer_mutex_provenance(&mut self, source: LocalId, destination: LocalId)
        ensures
            final(self)@ == old(self)@.moving_lock(source, destination),
    {
        let lock: Option<MutexLoan> = match self.mutex_loans.get(source.0) {
            Some(loan) => Some(*loan),
            None => None,
        };
        match lock {
            Some(loan) => {
                self.mutex_loans.remove(source.0);
                let depth: usize = self.scope_depth(destination, loan.creation_scope);
                if depth < loan.creation_scope {
                    self.error(
                        "a MutexGuard cannot escape the lexical scope where it was acquired",
                        Some(loan.origin),
                    );
                }
                self.mutex_loans.insert(
                    destination.0,
                    MutexLoan { owner: loan.owner, creation_scope: depth, origin: loan.origin },
                );
            },
            None => {},
        }
        let borrow: Option<MutexGuardBorrow> = match self.mutex_guard_borrows.get(source.0) {
            Some(borrow) => Some(*borrow),
            None => None,
        };
        match borrow {
            Some(borrow) => {
                self.mutex_guard_borrows.remove(source.0);
                let depth: usize = self.scope_depth(destination, borrow.creation_scope);
                if depth < borrow.creation_scope {
                    self.error(
                        "a reference borrowed from MutexGuard cannot escape its lexical scope",
                        Some(borrow.origin),
                    );
                }
                self.mutex_guard_borrows.insert(
                    destination.0,
                    MutexGuardBorrow {
                        guard: borrow.guard,
                        creation_scope: depth,
                        origin: borrow.origin,
                    },
                );
            },
            None => {},
        }
    }

    /// Keeps the loans of a scoped task alive until its scope is drained. An
    /// exclusive task can run only once in a scope.
    pub fn reserve_scoped_task_loans(&mut self, scope: LocalId, task: LocalId, span: Span) -> (reserved:
        bool)
        ensures
            reserved == !old(self)@.is_reserved(scope, task),
            final(self)@ == (if reserved {
                old(self)@.reserving(scope, task)
            } else {
                old(self)@.error(
                    "an FnMut task cannot have more than one live scoped spawn; the conservative reservation lasts until the next lexical scope drain"@,
                    Some(span),
                )
            }),
    {
        if self.is_fn_mut_local(task) {
            let mut i: usize = 0;
            while i < self.active_scoped_fnmut_tasks.len()
                invariant
                    i <= self.active_scoped_fnmut_tasks.len(),
                    self@ == old(self)@,
                    is_fn_mut(self@.local_type(task)),
                    forall|j: int|
                        0 <= j < i ==> self.active_scoped_fnmut_tasks@[j] != (scope, task),
                decreases self.active_scoped_fnmut_tasks.len() - i,
            {
                let entry = self.active_scoped_fnmut_tasks[i];
                if entry.0 == scope && entry.1 == task {
                    assert(self@.fn_mut_tasks[i as int] == (scope, task));
                    self.error(
                        "an FnMut task cannot have more than one live scoped spawn; the conservative reservation lasts until the next lexical scope drain",
                        Some(span),
                    );
                    return false;
                }
                i += 1;
            }
            self.active_scoped_fnmut_tasks.push((scope, task));
        }
        let loans = loans_held_by(&self.lexical_loans, task);
        let ghost marked = self@;
        let mut i: usize = 0;
        assert(self.scoped_loan_reservations@ =~= marked.reservations + reserved_loans(
            loans@,
            scope,
        ).take(0));
        while i < loans.len()
            invariant
                i <= loans.len(),
                self@ == (LowerState {
                    reservations: marked.reservations + reserved_loans(loans@, scope).take(
                        i as int,
                    ),
                    ..marked
                }),
            decreases loans.len() - i,
        {
            self.scoped_loan_reservations.push(HeldLoan { holder: scope, loan: loans[i] });
            i += 1;
            assert(self.scoped_loan_reservations@ =~= marked.reservations + reserved_loans(
                loans@,
                scope,
            ).take(i as int));
        }
        assert(reserved_loans(loans@, scope).take(i as int) =~= reserved_loans(loans@, scope));
        true
    }
}

} // verus!
