//! Lowering of one function: blocks, locals and scopes.

use std::collections::HashSet;
use vstd::prelude::*;

use crate::ast::Module;
use crate::closure_analysis::{counted_up, ClosureInfo};
use crate::diag::{diagnostics_view, Diagnostic, Span};
use crate::lower::kinds::{type_has_drop_glue, type_is_guard, type_requires_owned_local_tracking};
use crate::lower::safety::SafetyTyping;
use crate::lower::state::{
    bound_before, ArcLoan, FnSig, HeldLoan, LocalState, LoopContext, LowerState, MutexGuardBorrow,
    MutexLoan,
};
use crate::mir::{
    blocks_view, insts_view, locals_view, BlockId, Local, LocalId, MirBlock, MirFunction, MirInst,
};
use crate::resolver::ResolverContext;
use crate::table::{value_of, IdMap, NameMap};
use crate::text::{concat4, decimal, decimal_text, replace, replaced, same_text};
use crate::thread::{
    private_scoped_thread_handle_type, private_unit_handle_type, PRIVATE_SCOPED_THREAD_HANDLE_TYPE,
};
use crate::thread_safety::{CallableProvenanceTable, CallableSendProvenance, SendProvenanceView};
use crate::types::{canonical_application, type_option_view, type_ref_view, Type, TypeView};

verus! {

broadcast use vstd::std_specs::hash::group_hash_axioms;

/// Lowers one function.
pub struct LowerCtx<'a> {
    pub resolver: &'a ResolverContext,
    pub module: &'a Module,
    pub fn_sigs: &'a NameMap<FnSig>,
    pub diagnostics: Vec<Diagnostic>,
    pub locals: Vec<Local>,
    pub bindings: NameMap<LocalId>,
    pub next_local: u32,
    pub function_name: String,
    pub fn_ret_type: Option<Type>,
    pub blocks: Vec<MirBlock>,
    pub current: BlockId,
    pub loop_stack: Vec<LoopContext>,
    pub scope_stack: Vec<Vec<LocalId>>,
    /// Previous lexical bindings to restore when the corresponding local scope
    /// exits. MIR locals remain function-wide, but source names must still obey
    /// block shadowing.
    pub binding_undo: Vec<Vec<(String, Option<LocalId>)>>,
    pub local_states: Vec<LocalState>,
    pub local_scope_depths: Vec<usize>,
    pub implicit_deref_locals: HashSet<u32>,
    pub lexical_loans: Vec<HeldLoan>,
    pub scoped_loan_reservations: Vec<HeldLoan>,
    pub active_scoped_fnmut_tasks: Vec<(LocalId, LocalId)>,
    pub known_borrowed_callables: HashSet<u32>,
    pub arc_loans: IdMap<ArcLoan>,
    pub mutex_loans: IdMap<MutexLoan>,
    pub mutex_guard_borrows: IdMap<MutexGuardBorrow>,
    pub mutex_try_option_locals: HashSet<u32>,
    pub string_counter: u32,
    /// Source declaration identities are stable across closure analysis and MIR
    /// lowering even when the same spelling is shadowed.
    pub source_binding_locals: Vec<(String, Span, LocalId)>,
    pub closure_infos: Vec<ClosureInfo>,
    pub lifted_functions: Vec<MirFunction>,
    pub closure_name_root: String,
    pub callable_provenance: CallableProvenanceTable<u32>,
    pub callable_return_provenance: NameMap<CallableSendProvenance>,
    pub safety: SafetyTyping<'a>,
    /// Private raw thread slots need nonblocking detach cleanup even though
    /// ordinary raw pointers have no drop glue.
    pub thread_handle_locals: HashSet<u32>,
    /// Canonical scope parameters owned by a compiler-generated scope callback.
    /// They are drained before every lexical cleanup boundary.
    pub scoped_callback_scopes: Vec<LocalId>,
    /// Private and public scoped child tokens need scope-aware drop behavior.
    pub scoped_thread_handle_locals: HashSet<u32>,
}

pub open spec fn scopes_view(scopes: Seq<Vec<LocalId>>) -> Seq<Seq<LocalId>> {
    Seq::new(scopes.len(), |i: int| scopes[i]@)
}

pub open spec fn hidden_view(hidden: Seq<(String, Option<LocalId>)>) -> Seq<
    (Seq<char>, Option<LocalId>),
> {
    Seq::new(hidden.len(), |i: int| (hidden[i].0@, hidden[i].1))
}

pub open spec fn undo_view(undo: Seq<Vec<(String, Option<LocalId>)>>) -> Seq<
    Seq<(Seq<char>, Option<LocalId>)>,
> {
    Seq::new(undo.len(), |i: int| hidden_view(undo[i]@))
}

pub open spec fn source_bindings_view(bindings: Seq<(String, Span, LocalId)>) -> Seq<
    (Seq<char>, Span, LocalId),
> {
    Seq::new(bindings.len(), |i: int| (bindings[i].0@, bindings[i].1, bindings[i].2))
}

pub open spec fn provenance_map_view(table: Map<u32, CallableSendProvenance>) -> Map<
    u32,
    SendProvenanceView,
> {
    table.map_values(|provenance: CallableSendProvenance| provenance@)
}

pub open spec fn provenance_table_view(table: Seq<(Seq<char>, CallableSendProvenance)>) -> Seq<
    (Seq<char>, SendProvenanceView),
> {
    Seq::new(table.len(), |i: int| (table[i].0, table[i].1@))
}

impl<'a> View for LowerCtx<'a> {
    type V = LowerState;

    open spec fn view(&self) -> LowerState {
        LowerState {
            resolver: *self.resolver,
            module: *self.module,
            fn_sigs: self.fn_sigs@,
            diagnostics: diagnostics_view(self.diagnostics@),
            locals: locals_view(self.locals@),
            bindings: self.bindings@,
            next_local: self.next_local,
            function_name: self.function_name@,
            fn_ret_type: type_option_view(self.fn_ret_type),
            blocks: blocks_view(self.blocks@),
            current: self.current,
            loops: self.loop_stack@,
            scopes: scopes_view(self.scope_stack@),
            hidden: undo_view(self.binding_undo@),
            states: self.local_states@,
            depths: self.local_scope_depths@,
            implicit_derefs: self.implicit_deref_locals@,
            loans: self.lexical_loans@,
            reservations: self.scoped_loan_reservations@,
            fn_mut_tasks: self.active_scoped_fnmut_tasks@,
            borrowed_callables: self.known_borrowed_callables@,
            arc_loans: self.arc_loans@,
            locks: self.mutex_loans@,
            guard_borrows: self.mutex_guard_borrows@,
            try_lock_options: self.mutex_try_option_locals@,
            string_counter: self.string_counter,
            source_bindings: source_bindings_view(self.source_binding_locals@),
            closure_infos: self.closure_infos@,
            lifted_functions: self.lifted_functions@,
            closure_name_root: self.closure_name_root@,
            provenance: provenance_map_view(self.callable_provenance@),
            return_provenance: provenance_table_view(self.callable_return_provenance@),
            safety: self.safety@,
            thread_handles: self.thread_handle_locals@,
            callback_scopes: self.scoped_callback_scopes@,
            scoped_handles: self.scoped_thread_handle_locals@,
        }
    }
}

/// Diagnostics and single facts about locals.
impl<'a> LowerCtx<'a> {
    pub fn error(&mut self, message: &str, span: Option<Span>)
        ensures
            final(self)@ == old(self)@.error(message@, span),
    {
        self.diagnostics.push(Diagnostic::error(message.to_owned(), span));
        assert(self@.diagnostics =~= old(self)@.error(message@, span).diagnostics);
    }

    pub fn note(&mut self, message: &str, span: Option<Span>)
        ensures
            final(self)@ == old(self)@.note(message@, span),
    {
        self.diagnostics.push(Diagnostic::note(message.to_owned(), span));
        assert(self@.diagnostics =~= old(self)@.note(message@, span).diagnostics);
    }

    pub fn help(&mut self, message: &str, span: Option<Span>)
        ensures
            final(self)@ == old(self)@.help(message@, span),
    {
        self.diagnostics.push(Diagnostic::help(message.to_owned(), span));
        assert(self@.diagnostics =~= old(self)@.help(message@, span).diagnostics);
    }

    pub fn local_ty(&self, local: LocalId) -> (ty: Option<&Type>)
        ensures
            type_ref_view(ty) == self@.local_type(local),
    {
        let i: usize = local.0 as usize;
        if i < self.locals.len() {
            match &self.locals[i].ty {
                Some(ty) => Some(ty),
                None => None,
            }
        } else {
            None
        }
    }

    pub fn local_name(&self, local: LocalId) -> (name: Option<&str>)
        ensures
            match name {
                Some(name) => self@.local_name(local) == Some(name@),
                None => self@.local_name(local) is None,
            },
    {
        let i: usize = local.0 as usize;
        if i < self.locals.len() {
            match &self.locals[i].name {
                Some(name) => Some(name.as_str()),
                None => None,
            }
        } else {
            None
        }
    }

    pub fn shown_name(&self, local: LocalId) -> (name: String)
        ensures
            name@ == self@.shown_name(local),
    {
        match self.local_name(local) {
            Some(name) => name.to_owned(),
            None => "<temporary>".to_owned(),
        }
    }

    pub fn skips_drop(&self, local: LocalId) -> (skips: bool)
        ensures
            skips == self@.skips_drop(local),
    {
        let i: usize = local.0 as usize;
        i < self.locals.len() && self.locals[i].skip_drop
    }

    pub fn local_state(&self, local: LocalId) -> (state: Option<LocalState>)
        ensures
            state == self@.state_of(local),
    {
        let i: usize = local.0 as usize;
        if i < self.local_states.len() {
            Some(self.local_states[i])
        } else {
            None
        }
    }

    pub fn is_in_state(&self, local: LocalId, state: LocalState) -> (holds: bool)
        ensures
            holds == (self@.state_of(local) == Some(state)),
    {
        match self.local_state(local) {
            Some(found) => found == state,
            None => false,
        }
    }

    pub fn scope_depth(&self, local: LocalId, unknown: usize) -> (depth: usize)
        ensures
            depth == self@.depth_of(local, unknown),
    {
        let i: usize = local.0 as usize;
        if i < self.local_scope_depths.len() {
            self.local_scope_depths[i]
        } else {
            unknown
        }
    }

    pub fn is_droppable(&self, local: LocalId) -> (droppable: bool)
        ensures
            droppable == self@.is_droppable(local),
    {
        match self.local_ty(local) {
            Some(ty) => type_has_drop_glue(ty),
            None => false,
        }
    }

    pub fn local_needs_drop(&self, local: LocalId) -> (needs: bool)
        ensures
            needs == self@.needs_drop(local),
    {
        match self.local_ty(local) {
            Some(ty) => type_requires_owned_local_tracking(ty),
            None => false,
        }
    }

    pub fn local_is_guard(&self, local: LocalId) -> (guard: bool)
        ensures
            guard == self@.is_guard_local(local),
    {
        match self.local_ty(local) {
            Some(ty) => type_is_guard(ty),
            None => false,
        }
    }

    pub fn local_uses_ownership_tracking(&self, local: LocalId) -> (uses: bool)
        ensures
            uses == self@.uses_ownership_tracking(local),
    {
        self.local_needs_drop(local) || self.local_is_guard(local)
    }

    pub fn set_state(&mut self, local: LocalId, state: LocalState)
        ensures
            final(self)@ == old(self)@.with_state(local, state),
    {
        let i: usize = local.0 as usize;
        if i < self.local_states.len() {
            self.local_states[i] = state;
        }
    }

    pub fn set_type(&mut self, local: LocalId, ty: Type)
        ensures
            final(self)@ == old(self)@.with_type(local, ty@),
    {
        let i: usize = local.0 as usize;
        if i < self.locals.len() {
            let ghost view = ty@;
            self.locals[i].ty = Some(ty);
            assert(self@.locals =~= old(self)@.with_type(local, view).locals);
        }
    }

    pub fn mark_skip_drop(&mut self, local: LocalId)
        ensures
            final(self)@ == old(self)@.without_drop(local),
    {
        let i: usize = local.0 as usize;
        if i < self.locals.len() {
            self.locals[i].skip_drop = true;
            assert(self@.locals =~= old(self)@.without_drop(local).locals);
        }
    }
}

/// Blocks and instructions without side effects.
impl<'a> LowerCtx<'a> {
    /// Adds an instruction to the current block.
    pub fn emit(&mut self, inst: MirInst)
        ensures
            final(self)@ == old(self)@.emitted(inst@),
    {
        let i: usize = self.current.0 as usize;
        if i < self.blocks.len() {
            let ghost view = inst@;
            self.blocks[i].insts.push(inst);
            assert(insts_view(self.blocks@[i as int].insts@) =~= old(self)@.blocks[i as int].push(
                view,
            ));
            assert(self@.blocks =~= old(self)@.emitted(view).blocks);
        }
    }

    /// Whether control has left the current block.
    pub fn terminated(&self) -> (ended: bool)
        ensures
            ended == self@.terminated(),
    {
        let i: usize = self.current.0 as usize;
        if i < self.blocks.len() {
            let insts = &self.blocks[i].insts;
            let n: usize = insts.len();
            if n > 0 {
                assert(insts_view(insts@).last() == insts@[n - 1]@);
                match &insts[n - 1] {
                    MirInst::Return(_) | MirInst::Goto(_) | MirInst::If { .. } => true,
                    _ => false,
                }
            } else {
                false
            }
        } else {
            false
        }
    }

    /// Adds an instruction to the current block, before the one that leaves it.
    pub fn emit_inside(&mut self, inst: MirInst)
        ensures
            final(self)@ == old(self)@.emitted_inside(inst@),
    {
        if self.terminated() {
            let i: usize = self.current.0 as usize;
            let n: usize = self.blocks[i].insts.len();
            let ghost view = inst@;
            self.blocks[i].insts.insert(n - 1, inst);
            assert(insts_view(self.blocks@[i as int].insts@) =~= old(self)@.blocks[i as int].insert(
                n - 1,
                view,
            ));
            assert(self@.blocks =~= old(self)@.emitted_inside(view).blocks);
        } else {
            self.emit(inst);
        }
    }

    pub fn new_block(&mut self) -> (id: BlockId)
        ensures
            id == old(self)@.next_block(),
            final(self)@ == old(self)@.with_new_block(),
    {
        let id = BlockId(self.blocks.len() as u32);
        self.blocks.push(MirBlock { insts: Vec::new() });
        assert(insts_view(self.blocks@.last().insts@) =~= Seq::empty());
        assert(self@.blocks =~= old(self)@.with_new_block().blocks);
        id
    }

    pub fn switch_to(&mut self, id: BlockId)
        ensures
            final(self)@ == old(self)@.at_block(id),
    {
        self.current = id;
    }

    pub fn enter_loop(&mut self, continue_target: BlockId, exit: BlockId)
        ensures
            final(self)@ == (LowerState {
                loops: old(self)@.loops.push(
                    LoopContext {
                        continue_target,
                        exit,
                        scope_depth: old(self)@.scopes.len() as usize,
                    },
                ),
                ..old(self)@
            }),
    {
        let scope_depth: usize = self.scope_stack.len();
        self.loop_stack.push(LoopContext { continue_target, exit, scope_depth });
    }

    pub fn exit_loop(&mut self)
        ensures
            final(self)@ == (LowerState {
                loops: if old(self)@.loops.len() == 0 {
                    old(self)@.loops
                } else {
                    old(self)@.loops.drop_last()
                },
                ..old(self)@
            }),
    {
        self.loop_stack.pop();
    }

    pub fn current_loop(&self) -> (innermost: Option<&LoopContext>)
        ensures
            match innermost {
                Some(context) => self@.loops.len() > 0 && *context == self@.loops.last(),
                None => self@.loops.len() == 0,
            },
    {
        let n: usize = self.loop_stack.len();
        if n > 0 {
            Some(&self.loop_stack[n - 1])
        } else {
            None
        }
    }
}

/// Locals, names and scopes.
impl<'a> LowerCtx<'a> {
    /// A fresh local in the innermost scope.
    pub fn fresh_local(&mut self, name: Option<&str>) -> (id: LocalId)
        ensures
            id == LocalId(old(self)@.next_local),
            final(self)@ == old(self)@.with_fresh_local(
                match name {
                    Some(name) => Some(name@),
                    None => None,
                },
            ),
    {
        let ghost shown: Option<Seq<char>> = match name {
            Some(name) => Some(name@),
            None => None,
        };
        let id = LocalId(self.next_local);
        self.next_local = self.next_local.wrapping_add(1);
        let stored = match name {
            Some(name) => Some(name.to_owned()),
            None => None,
        };
        self.locals.push(Local { name: stored, ty: None, mutable: false, skip_drop: false });
        self.local_states.push(LocalState::Uninitialized);
        let depth: usize = self.scope_stack.len();
        self.local_scope_depths.push(
            if depth == 0 {
                0
            } else {
                depth - 1
            },
        );
        if depth > 0 {
            self.scope_stack[depth - 1].push(id);
        }
        proof {
            let after = old(self)@.with_fresh_local(shown);
            assert(self@.locals =~= after.locals);
            assert(self@.scopes =~= after.scopes);
        }
        id
    }

    /// A fresh local of a given type.
    pub fn typed_local(&mut self, ty: Type) -> (id: LocalId)
        ensures
            id == LocalId(old(self)@.next_local),
            final(self)@ == old(self)@.with_typed_local(ty@),
    {
        proof {
            reveal(LowerState::with_typed_local);
        }
        let id = self.fresh_local(None);
        self.set_type(id, ty);
        id
    }

    pub fn fresh_thread_handle_local(&mut self) -> (id: LocalId)
        ensures
            id == LocalId(old(self)@.next_local),
            final(self)@ == old(self)@.with_thread_handle_local(
                TypeView::RawPtr(Box::new(TypeView::I8)),
            ),
    {
        proof {
            reveal(LowerState::with_thread_handle_local);
        }
        let id = self.typed_local(private_unit_handle_type());
        self.thread_handle_locals.insert(id.0);
        id
    }

    pub fn fresh_scoped_thread_handle_local(&mut self, result: Type) -> (id: LocalId)
        ensures
            id == LocalId(old(self)@.next_local),
            final(self)@ == old(self)@.with_scoped_handle_local(
                canonical_application(PRIVATE_SCOPED_THREAD_HANDLE_TYPE@, result@),
            ),
    {
        proof {
            reveal(LowerState::with_typed_local);
        }
        let id = self.typed_local(private_scoped_thread_handle_type(result));
        self.mark_scoped_thread_handle(id);
        id
    }

    pub fn mark_scoped_thread_handle(&mut self, local: LocalId)
        ensures
            final(self)@ == old(self)@.with_scoped_handle(local),
    {
        self.scoped_thread_handle_locals.insert(local.0);
    }

    pub fn register_scoped_callback_scope(&mut self, local: LocalId)
        ensures
            final(self)@ == old(self)@.with_callback_scope(local),
    {
        let mut i: usize = 0;
        while i < self.scoped_callback_scopes.len()
            invariant
                i <= self.scoped_callback_scopes.len(),
                self@ == old(self)@,
                forall|j: int| 0 <= j < i ==> self.scoped_callback_scopes@[j] != local,
            decreases self.scoped_callback_scopes.len() - i,
        {
            if self.scoped_callback_scopes[i] == local {
                assert(self@.callback_scopes[i as int] == local);
                return;
            }
            i += 1;
        }
        self.scoped_callback_scopes.push(local);
    }

    pub fn bind_name(&mut self, name: &str, local: LocalId)
        ensures
            final(self)@ == old(self)@.with_binding(name@, local),
    {
        let previous = match self.bindings.get(name) {
            Some(id) => Some(*id),
            None => None,
        };
        self.bindings.insert(name.to_owned(), local);
        let n: usize = self.binding_undo.len();
        if n > 0 {
            self.binding_undo[n - 1].push((name.to_owned(), previous));
            assert(hidden_view(self.binding_undo@[n - 1]@) =~= old(self)@.hidden.last().push(
                (name@, previous),
            ));
        }
        assert(self@.hidden =~= old(self)@.with_binding(name@, local).hidden);
    }

    pub fn bound_local(&self, name: &str) -> (local: Option<LocalId>)
        ensures
            local == value_of(self@.bindings, name@),
    {
        match self.bindings.get(name) {
            Some(id) => Some(*id),
            None => None,
        }
    }

    pub fn register_source_binding(&mut self, name: &str, declaration_span: Span, local: LocalId)
        ensures
            final(self)@ == (LowerState {
                source_bindings: old(self)@.source_bindings.push((name@, declaration_span, local)),
                ..old(self)@
            }),
    {
        self.source_binding_locals.push((name.to_owned(), declaration_span, local));
        assert(self@.source_bindings =~= old(self)@.source_bindings.push(
            (name@, declaration_span, local),
        ));
    }

    pub fn source_binding_local(&self, name: &str, declaration_span: Span) -> (local: Option<LocalId>)
        ensures
            local == self@.source_binding(name@, declaration_span),
    {
        let mut i: usize = self.source_binding_locals.len();
        while i > 0
            invariant
                i <= self.source_binding_locals.len(),
                bound_before(self@.source_bindings, name@, declaration_span, i as int)
                    == self@.source_binding(name@, declaration_span),
            decreases i,
        {
            let entry = &self.source_binding_locals[i - 1];
            if same_text(entry.0.as_str(), name) && entry.1 == declaration_span {
                return Some(entry.2);
            }
            i -= 1;
        }
        None
    }

    /// A name for the next string constant of the function.
    pub fn fresh_string_global(&mut self) -> (name: String)
        ensures
            name@ == ".str."@ + replaced(old(self)@.function_name, "::"@, "_"@) + "."@ + decimal_text(
                old(self)@.string_counter as nat,
            ),
            final(self)@ == (LowerState {
                string_counter: counted_up(old(self)@.string_counter),
                ..old(self)@
            }),
    {
        let part = replace(self.function_name.as_str(), "::", "_");
        let number = decimal(self.string_counter as u64);
        let name = concat4(".str.", part.as_str(), ".", number.as_str());
        self.string_counter = self.string_counter.wrapping_add(1);
        name
    }

    pub fn mark_implicit_deref(&mut self, local: LocalId)
        ensures
            final(self)@ == (LowerState {
                implicit_derefs: old(self)@.implicit_derefs.insert(local.0),
                ..old(self)@
            }),
    {
        self.implicit_deref_locals.insert(local.0);
    }

    /// What an implicitly dereferenced local refers to.
    pub fn implicit_deref_type(&self, local: LocalId) -> (ty: Option<&Type>)
        ensures
            type_ref_view(ty) == (match self@.local_type(local) {
                Some(TypeView::Ref(inner, _)) => if self@.implicit_derefs.contains(local.0) {
                    Some(*inner)
                } else {
                    None
                },
                _ => None,
            }),
    {
        if !self.implicit_deref_locals.contains(&local.0) {
            return None;
        }
        match self.local_ty(local) {
            Some(ty) => match ty {
                Type::Ref(inner, _) => {
                    let target: &Type = inner;
                    assert(*(ty@->Ref_0) == target@);
                    Some(target)
                },
                _ => None,
            },
            None => None,
        }
    }

    pub fn mark_mutex_try_option(&mut self, local: LocalId)
        ensures
            final(self)@ == (LowerState {
                try_lock_options: old(self)@.try_lock_options.insert(local.0),
                ..old(self)@
            }),
    {
        self.mutex_try_option_locals.insert(local.0);
    }

    pub fn enter_scope(&mut self)
        ensures
            final(self)@ == old(self)@.entering_scope(),
    {
        self.scope_stack.push(Vec::new());
        self.binding_undo.push(Vec::new());
        assert(hidden_view(self.binding_undo@.last()@) =~= Seq::empty());
        assert(self@.scopes =~= old(self)@.entering_scope().scopes);
        assert(self@.hidden =~= old(self)@.entering_scope().hidden);
    }
}

} // verus!
