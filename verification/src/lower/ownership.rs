//! Use, moves and drops of locals, and the cleanup at the end of scopes.

use vstd::prelude::*;

use crate::diag::Span;
use crate::lower::context::{hidden_view, scopes_view, LowerCtx};
use crate::lower::kinds::type_label;
use crate::lower::loans::{loans_of_others, other_tasks};
use crate::lower::state::{held_by_others, tasks_of_others, LocalState, LowerState};
use crate::mir::{LocalId, MirInst};
use crate::text::concat3;

verus! {

broadcast use vstd::std_specs::hash::group_hash_axioms;

/// A copy of the scopes.
fn clone_scopes(scopes: &Vec<Vec<LocalId>>) -> (copy: Vec<Vec<LocalId>>)
    ensures
        scopes_view(copy@) == scopes_view(scopes@),
{
    let mut copy: Vec<Vec<LocalId>> = Vec::new();
    let mut i: usize = 0;
    while i < scopes.len()
        invariant
            i <= scopes.len(),
            copy.len() == i,
            forall|j: int| 0 <= j < i ==> (#[trigger] copy@[j])@ == scopes@[j]@,
        decreases scopes.len() - i,
    {
        copy.push(clone_locals(&scopes[i]));
        i += 1;
    }
    assert(scopes_view(copy@) =~= scopes_view(scopes@));
    copy
}

fn clone_locals(locals: &Vec<LocalId>) -> (copy: Vec<LocalId>)
    ensures
        copy@ == locals@,
{
    let mut copy: Vec<LocalId> = Vec::new();
    let mut i: usize = 0;
    while i < locals.len()
        invariant
            i <= locals.len(),
            copy@ == locals@.take(i as int),
        decreases locals.len() - i,
    {
        copy.push(locals[i]);
        i += 1;
        assert(copy@ =~= locals@.take(i as int));
    }
    assert(copy@ =~= locals@);
    copy
}

/// Use of locals.
impl<'a> LowerCtx<'a> {
    fn use_text(&self, problem: &str, local: LocalId) -> (text: String)
        ensures
            text@ == self@.use_text(problem@, local),
    {
        let mut text = problem.to_owned();
        text.append("value");
        let ghost head = text@;
        match self.local_name(local) {
            Some(name) => {
                text.append(concat3(" `", name, "`").as_str());
            },
            None => {
                assert(text@ =~= head + Seq::empty());
            },
        }
        let ghost named = text@;
        match self.local_ty(local) {
            Some(ty) => {
                let label = type_label(ty);
                text.append(concat3(" of type `", label.as_str(), "`").as_str());
            },
            None => {
                assert(text@ =~= named + Seq::empty());
            },
        }
        text
    }

    fn guard_use_text(&self, problem: &str, local: LocalId, advice: &str) -> (text: String)
        ensures
            text@ == self@.guard_use_text(problem@, local, advice@),
    {
        let named = match self.local_name(local) {
            Some(name) => concat3("guard `", name, "`"),
            None => "guard value".to_owned(),
        };
        concat3(problem, named.as_str(), advice)
    }

    pub fn emit_use_of_moved_local(&mut self, local: LocalId, span: Option<Span>)
        ensures
            final(self)@ == old(self)@.reporting_moved(local, span),
    {
        let message = if self.local_is_guard(local) {
            self.guard_use_text(
                "use of moved ",
                local,
                "; guard values are single-owner and cleanup runs exactly once",
            )
        } else {
            self.use_text("use of moved ", local)
        };
        self.error(message.as_str(), span);
        self.note(
            "Glyph uses single-owner move semantics and conservatively merges ownership across reachable control-flow paths",
            span,
        );
        self.help(
            "avoid branch-local moves before unconditional post-branch use, or reinitialize the value on every reachable branch",
            span,
        );
    }

    pub fn emit_use_of_uninitialized_local(&mut self, local: LocalId, span: Option<Span>)
        ensures
            final(self)@ == old(self)@.reporting_uninitialized(local, span),
    {
        let message = if self.local_is_guard(local) {
            self.guard_use_text(
                "use of uninitialized ",
                local,
                "; initialize the guard before using it",
            )
        } else {
            self.use_text("use of uninitialized ", local)
        };
        self.error(message.as_str(), span);
        self.note("this value is not definitely initialized on all reachable paths", span);
        self.help("initialize the value on every reachable branch before use", span);
    }

    /// Whether the value of a local can be read. The reason why not is reported.
    pub fn check_local_available(&mut self, local: LocalId, span: Option<Span>) -> (available: bool)
        ensures
            available == old(self)@.is_available(local),
            final(self)@ == old(self)@.checking_available(local, span),
            available ==> final(self)@ == old(self)@,
    {
        proof {
            reveal(LowerState::is_available);
            reveal(LowerState::checking_available);
        }
        if !self.validate_lexical_owner_read(local, span) {
            return false;
        }
        let watched = self.is_droppable(local) || self.local_is_guard(local);
        if !watched || self.skips_drop(local) {
            return true;
        }
        match self.local_state(local) {
            Some(LocalState::Moved) => {
                self.emit_use_of_moved_local(local, span);
                false
            },
            Some(LocalState::Uninitialized) => {
                self.emit_use_of_uninitialized_local(local, span);
                false
            },
            _ => true,
        }
    }

    /// Moves out of a local. The reason why it cannot be moved is reported.
    pub fn consume_local(&mut self, local: LocalId, span: Option<Span>) -> (consumed: bool)
        ensures
            consumed == old(self)@.is_consumable(local),
            final(self)@ == old(self)@.consuming(local, span),
    {
        proof {
            reveal(LowerState::is_consumable);
            reveal(LowerState::consuming);
        }
        if !self.check_local_available(local, span) {
            return false;
        }
        if !self.validate_movable(local, "move", span) {
            return false;
        }
        if !self.local_uses_ownership_tracking(local) {
            return true;
        }
        match self.local_state(local) {
            Some(LocalState::Moved) => {
                self.emit_use_of_moved_local(local, span);
                false
            },
            Some(LocalState::Initialized) => {
                self.set_state(local, LocalState::Moved);
                true
            },
            _ => {
                self.emit_use_of_uninitialized_local(local, span);
                self.set_state(local, LocalState::Moved);
                false
            },
        }
    }

    pub fn emit_drop(&mut self, local: LocalId)
        ensures
            final(self)@ == old(self)@.dropping(local),
    {
        if !self.validate_movable(local, "drop", None) {
            return;
        }
        self.emit_inside(MirInst::Drop(local));
        self.set_state(local, LocalState::Moved);
        self.release_mutex_provenance_for_local(local);
    }

    pub fn drop_local_if_needed(&mut self, local: LocalId)
        ensures
            final(self)@ == old(self)@.dropping_if_needed(local),
    {
        if self.skips_drop(local) {
            return;
        }
        let live = self.is_in_state(local, LocalState::Initialized);
        if self.thread_handle_locals.contains(&local.0) && live {
            self.emit(MirInst::DropThreadHandle(local));
            self.set_state(local, LocalState::Moved);
            return;
        }
        if self.scoped_thread_handle_locals.contains(&local.0) && live {
            self.emit(MirInst::DropScopedThreadHandle(local));
            self.set_state(local, LocalState::Moved);
            return;
        }
        if self.is_droppable(local) && live {
            self.emit_drop(local);
        }
    }

    pub fn handle_reassign(&mut self, local: LocalId)
        ensures
            final(self)@ == old(self)@.reassigning(local),
    {
        if !self.validate_arc_owner_invalidation(local, "reassign", None) {
            return;
        }
        let _ = self.validate_lexical_owner_invalidation(local, "reassign", None);
        if self.skips_drop(local) || !self.is_droppable(local) || !self.is_in_state(
            local,
            LocalState::Initialized,
        ) {
            return;
        }
        if !self.validate_mutex_owner_invalidation(local, "reassign", None) {
            return;
        }
        if !self.validate_mutex_guard_invalidation(local, "reassign", None) {
            return;
        }
        self.emit_drop(local);
    }
}

/// The end of scopes.
impl<'a> LowerCtx<'a> {
    /// Every thread scope of the function waits for its tasks, whose loans end.
    pub fn drain_scoped_callback_scopes(&mut self)
        ensures
            final(self)@ == old(self)@.draining(),
    {
        let scopes = clone_locals(&self.scoped_callback_scopes);
        let mut i: usize = 0;
        while i < scopes.len()
            invariant
                i <= scopes.len(),
                self@.draining_from(scopes@, i as int) == old(self)@.draining_from(scopes@, 0),
            decreases scopes.len() - i,
        {
            let scope = scopes[i];
            self.scoped_loan_reservations = loans_of_others(&self.scoped_loan_reservations, scope);
            self.active_scoped_fnmut_tasks = other_tasks(&self.active_scoped_fnmut_tasks, scope);
            self.emit_inside(MirInst::DrainThreadScope(scope));
            i += 1;
        }
    }

    fn drop_locals(&mut self, locals: &Vec<LocalId>)
        ensures
            final(self)@ == old(self)@.dropping_before(locals@, locals@.len() as int),
    {
        let mut i: usize = locals.len();
        while i > 0
            invariant
                i <= locals.len(),
                self@.dropping_before(locals@, i as int) == old(self)@.dropping_before(
                    locals@,
                    locals@.len() as int,
                ),
            decreases i,
        {
            self.drop_local_if_needed(locals[i - 1]);
            self.release_mutex_provenance_for_local(locals[i - 1]);
            i -= 1;
        }
    }

    fn release_scopes(&mut self, scopes: &Vec<Vec<LocalId>>, depth: usize)
        ensures
            final(self)@ == old(self)@.releasing_scopes(scopes_view(scopes@), depth as int),
    {
        let ghost views = scopes_view(scopes@);
        let mut i: usize = depth;
        while i < scopes.len()
            invariant
                views == scopes_view(scopes@),
                views.len() == scopes.len(),
                self@.releasing_scopes(views, i as int) == old(self)@.releasing_scopes(
                    views,
                    depth as int,
                ),
            decreases scopes.len() - i,
        {
            assert(views[i as int] == scopes@[i as int]@);
            self.release_arc_loans_for_locals(&scopes[i]);
            self.release_lexical_loans_for_locals(&scopes[i]);
            i += 1;
        }
    }

    fn drop_scopes(&mut self, scopes: &Vec<Vec<LocalId>>, depth: usize)
        ensures
            final(self)@ == old(self)@.dropping_scopes(
                scopes_view(scopes@),
                depth as int,
                scopes@.len() as int,
            ),
    {
        let ghost views = scopes_view(scopes@);
        let mut i: usize = scopes.len();
        while i > depth
            invariant
                i <= scopes.len(),
                views == scopes_view(scopes@),
                views.len() == scopes.len(),
                self@.dropping_scopes(views, depth as int, i as int) == old(self)@.dropping_scopes(
                    views,
                    depth as int,
                    scopes@.len() as int,
                ),
            decreases i,
        {
            assert(views[i - 1] == scopes@[i - 1]@);
            self.drop_locals(&scopes[i - 1]);
            i -= 1;
        }
    }

    /// Cleanup on the way out of all scopes deeper than `depth`, which stay open
    /// for the code that follows in the source.
    pub fn drop_scopes_after_depth(&mut self, depth: usize)
        ensures
            final(self)@ == old(self)@.dropping_after_depth(depth as int),
    {
        if self.scope_stack.len() <= depth {
            return;
        }
        let scopes = clone_scopes(&self.scope_stack);
        proof {
            assert(scopes_view(scopes@).len() == scopes@.len());
        }
        self.drain_scoped_callback_scopes();
        self.release_scopes(&scopes, depth);
        self.drop_scopes(&scopes, depth);
    }

    /// Cleanup on the way out of the function.
    pub fn drop_all_active_locals(&mut self)
        ensures
            final(self)@ == old(self)@.dropping_all(),
    {
        let scopes = clone_scopes(&self.scope_stack);
        proof {
            assert(scopes_view(scopes@).len() == scopes@.len());
        }
        self.drain_scoped_callback_scopes();
        self.release_scopes(&scopes, 0);
        self.drop_scopes(&scopes, 0);
    }

    fn restore_bindings(&mut self, hidden: &Vec<(String, Option<LocalId>)>)
        ensures
            final(self)@ == old(self)@.uncovering(hidden_view(hidden@), hidden@.len() as int),
    {
        let ghost views = hidden_view(hidden@);
        let mut i: usize = hidden.len();
        while i > 0
            invariant
                i <= hidden.len(),
                views == hidden_view(hidden@),
                views.len() == hidden.len(),
                self@.uncovering(views, i as int) == old(self)@.uncovering(
                    views,
                    hidden@.len() as int,
                ),
            decreases i,
        {
            let entry = &hidden[i - 1];
            match entry.1 {
                Some(local) => {
                    self.bindings.insert(entry.0.clone(), local);
                },
                None => {
                    self.bindings.remove(entry.0.as_str());
                },
            }
            i -= 1;
        }
    }

    /// Leaves the innermost scope: its locals are cleaned up, and the names that
    /// it hid are visible again. The outermost scope is never left.
    pub fn exit_scope(&mut self)
        ensures
            final(self)@ == old(self)@.exiting_scope(),
    {
        if self.scope_stack.len() <= 1 {
            return;
        }
        self.drain_scoped_callback_scopes();
        let ghost drained = self@;
        match self.scope_stack.pop() {
            Some(locals) => {
                proof {
                    draining_keeps_scopes(old(self)@, old(self)@.callback_scopes, 0);
                    assert(self@.scopes =~= drained.scopes.drop_last());
                }
                self.release_arc_loans_for_locals(&locals);
                self.release_lexical_loans_for_locals(&locals);
                self.drop_locals(&locals);
            },
            None => {
                proof {
                    draining_keeps_scopes(old(self)@, old(self)@.callback_scopes, 0);
                }
            },
        }
        let ghost cleaned = self@;
        match self.binding_undo.pop() {
            Some(hidden) => {
                assert(self@.hidden =~= cleaned.hidden.drop_last());
                self.restore_bindings(&hidden);
            },
            None => {},
        }
    }
}

/// Draining does not change the scopes.
proof fn draining_keeps_scopes(state: LowerState, scopes: Seq<LocalId>, i: int)
    ensures
        state.draining_from(scopes, i).scopes == state.scopes,
    decreases scopes.len() - i,
{
    if 0 <= i < scopes.len() {
        let next = LowerState {
            reservations: held_by_others(state.reservations, scopes[i], 0),
            fn_mut_tasks: tasks_of_others(state.fn_mut_tasks, scopes[i], 0),
            ..state
        }.emitted_inside(crate::mir::MirInstView::DrainThreadScope(scopes[i]));
        draining_keeps_scopes(next, scopes, i + 1);
    }
}

} // verus!
