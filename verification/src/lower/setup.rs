//! The start of lowering a function, and thread-safety checks of its values.

use std::collections::HashSet;
use vstd::prelude::*;

use crate::ast::{Function, Item, Module};
use crate::closure_analysis::{
    analyze_function_closure_ownership, closure_captures_view, closures_view, function_analysis,
    ClosureCapture, ClosureCaptureView, ClosureEscape, ClosureEscapeKind, ClosureInfo,
    ClosureInfoView,
};
use crate::diag::Span;
use crate::lower::context::{hidden_view, provenance_table_view, LowerCtx};
use crate::lower::loans::loans_held_by;
use crate::lower::safety::{initial_typing, SafetyTyping};
use crate::lower::state::{held_by, typed_captures, FnSig, LexicalLoan, LowerState};
use crate::mir::{insts_view, BlockId, BorrowKind, LocalId, MirBlock};
use crate::resolver::ResolverContext;
use crate::table::{key_position, value_of, with_entry, IdMap, NameMap};
use crate::text::{concat3, decimal, decimal_text};
use crate::thread::{
    canonical_thread_scope_type, is_canonical_scoped_thread_handle, SCOPED_THREAD_HANDLE_TYPE,
    SCOPED_THREAD_SCOPE_TYPE,
};
use crate::thread_safety::{
    captures_view, root_verdict, CallableCaptureProvenance, CallableProvenanceTable,
    CallableSendProvenance, CaptureProvenanceView, IdentitySpaces, SendProvenanceView,
    ThreadSafetyRequirement, ThreadSafetyType, Verdict,
};
use crate::types::{canonical_argument, same_type, Type, TypeView};

verus! {

broadcast use vstd::std_specs::hash::group_hash_axioms;

/// Whether a closure is returned from its function.
pub open spec fn is_returned(closure: ClosureInfoView) -> bool {
    exists|i: int|
        0 <= i < closure.escapes.len() && (#[trigger] closure.escapes[i]).kind
            == ClosureEscapeKind::Return
}

/// The positions of the returned closures from position `i` on.
pub open spec fn returned_from(closures: Seq<ClosureInfoView>, i: int) -> Seq<int>
    decreases closures.len() - i,
{
    if i < 0 || i >= closures.len() {
        Seq::empty()
    } else {
        let rest = returned_from(closures, i + 1);
        if is_returned(closures[i]) {
            seq![i] + rest
        } else {
            rest
        }
    }
}

/// Whether the types of all captures are known.
pub open spec fn all_resolved(captures: Seq<ClosureCaptureView>) -> bool {
    forall|i: int| 0 <= i < captures.len() ==> (#[trigger] captures[i]).resolved_type is Some
}

/// Names and types of captures whose types are known.
pub open spec fn resolved_types(captures: Seq<ClosureCaptureView>) -> Seq<(Seq<char>, TypeView)> {
    Seq::new(captures.len(), |i: int| (captures[i].name, captures[i].resolved_type->Some_0))
}

impl LowerState {
    /// A function that returns one known closure passes its provenance on. Where
    /// it returns several, or none, nothing is promised.
    pub open spec fn certifying(self, function: Function) -> LowerState {
        let closures = function_analysis(self.resolver@, function).closures;
        let returned = returned_from(closures, 0);
        if returned.len() != 1 {
            self
        } else {
            self.certifying_closure(function.name.0@, closures[returned[0]])
        }
    }

    pub open spec fn certifying_closure(self, name: Seq<char>, closure: ClosureInfoView) -> LowerState {
        if all_resolved(closure.captures) {
            let (captures, safety) = typed_captures(
                self.safety,
                resolved_types(closure.captures),
                0,
            );
            let provenance = SendProvenanceView::OwnedClosure {
                origin: name + "::__glyph_closure_"@ + decimal_text(closure.closure_id as nat),
                captures,
            };
            LowerState {
                safety,
                return_provenance: with_entry(self.return_provenance, name, provenance),
                ..self
            }
        } else {
            let provenance = SendProvenanceView::Unknown {
                reason: "returned closure from '"@ + name
                    + "' has an unresolved capture layout"@,
            };
            LowerState {
                return_provenance: with_entry(self.return_provenance, name, provenance),
                ..self
            }
        }
    }

    /// The functions among the items from position `i` on pass provenance on.
    pub open spec fn certifying_from(self, items: Seq<Item>, i: int) -> LowerState
        decreases items.len() - i,
    {
        if i < 0 || i >= items.len() {
            self
        } else {
            let next = match items[i] {
                Item::Function(function) => self.certifying(function),
                _ => self,
            };
            next.certifying_from(items, i + 1)
        }
    }

    /// Nothing lowered yet: one empty block and one scope.
    pub open spec fn empty(
        resolver: ResolverContext,
        module: Module,
        fn_sigs: Seq<(Seq<char>, FnSig)>,
        function_name: Seq<char>,
        space: u64,
    ) -> LowerState {
        LowerState {
            resolver,
            module,
            fn_sigs,
            diagnostics: Seq::empty(),
            locals: Seq::empty(),
            bindings: Seq::empty(),
            next_local: 0,
            function_name,
            fn_ret_type: None,
            blocks: seq![Seq::empty()],
            current: BlockId(0),
            loops: Seq::empty(),
            scopes: seq![Seq::empty()],
            hidden: seq![Seq::empty()],
            states: Seq::empty(),
            depths: Seq::empty(),
            implicit_derefs: Set::empty(),
            loans: Seq::empty(),
            reservations: Seq::empty(),
            fn_mut_tasks: Seq::empty(),
            borrowed_callables: Set::empty(),
            arc_loans: Seq::empty(),
            locks: Seq::empty(),
            guard_borrows: Seq::empty(),
            try_lock_options: Set::empty(),
            string_counter: 0,
            source_bindings: Seq::empty(),
            closure_infos: Seq::empty(),
            lifted_functions: Seq::empty(),
            closure_name_root: function_name,
            provenance: Map::empty(),
            return_provenance: Seq::empty(),
            safety: initial_typing(resolver, space),
            thread_handles: Set::empty(),
            callback_scopes: Seq::empty(),
            scoped_handles: Set::empty(),
        }
    }

    /// The start of lowering a function of a module.
    pub open spec fn start(
        resolver: ResolverContext,
        module: Module,
        fn_sigs: Seq<(Seq<char>, FnSig)>,
        function_name: Seq<char>,
        space: u64,
    ) -> LowerState {
        LowerState::empty(resolver, module, fn_sigs, function_name, space).certifying_from(
            module.items@,
            0,
        )
    }
}

/// Looking at values does not change where a key stands.
proof fn table_view_keeps_positions(
    table: Seq<(Seq<char>, CallableSendProvenance)>,
    key: Seq<char>,
    i: int,
)
    ensures
        key_position(provenance_table_view(table), key, i) == key_position(table, key, i),
    decreases table.len() - i,
{
    if 0 <= i < table.len() {
        table_view_keeps_positions(table, key, i + 1);
    }
}

fn escapes_by_return(escapes: &Vec<ClosureEscape>) -> (found: bool)
    ensures
        found == exists|i: int|
            0 <= i < escapes@.len() && (#[trigger] escapes@[i]).kind == ClosureEscapeKind::Return,
{
    let mut i: usize = 0;
    while i < escapes.len()
        invariant
            i <= escapes.len(),
            forall|j: int|
                0 <= j < i ==> (#[trigger] escapes@[j]).kind != ClosureEscapeKind::Return,
        decreases escapes.len() - i,
    {
        if escapes[i].kind == ClosureEscapeKind::Return {
            return true;
        }
        i += 1;
    }
    false
}

fn returned_closures(closures: &Vec<ClosureInfo>) -> (returned: Vec<usize>)
    ensures
        returned@.len() == returned_from(closures_view(closures@), 0).len(),
        forall|i: int|
            0 <= i < returned@.len() ==> (#[trigger] returned@[i]) < closures@.len()
                && returned@[i] == returned_from(closures_view(closures@), 0)[i],
{
    let ghost views = closures_view(closures@);
    let ghost whole = returned_from(views, 0);
    let mut returned: Vec<usize> = Vec::new();
    let mut i: usize = 0;
    let ghost mut seen: Seq<int> = Seq::empty();
    assert(whole =~= seen + whole);
    while i < closures.len()
        invariant
            i <= closures.len(),
            views == closures_view(closures@),
            views.len() == closures.len(),
            whole == seen + returned_from(views, i as int),
            seen.len() == returned@.len(),
            forall|j: int|
                0 <= j < returned@.len() ==> (#[trigger] returned@[j]) < closures@.len()
                    && returned@[j] == seen[j],
        decreases closures.len() - i,
    {
        assert(views[i as int] == closures@[i as int]@);
        let ghost rest = returned_from(views, i + 1);
        if escapes_by_return(&closures[i].escapes) {
            assert(is_returned(views[i as int]));
            assert(seen + returned_from(views, i as int) =~= seen.push(i as int) + rest);
            returned.push(i);
            proof {
                seen = seen.push(i as int);
            }
        }
        i += 1;
    }
    assert(whole =~= seen);
    returned
}

fn captures_resolved(captures: &Vec<ClosureCapture>) -> (resolved: bool)
    ensures
        resolved == all_resolved(closure_captures_view(captures@)),
{
    let ghost views = closure_captures_view(captures@);
    let mut i: usize = 0;
    while i < captures.len()
        invariant
            i <= captures.len(),
            views == closure_captures_view(captures@),
            views.len() == captures.len(),
            forall|j: int| 0 <= j < i ==> (#[trigger] views[j]).resolved_type is Some,
        decreases captures.len() - i,
    {
        assert(views[i as int] == captures@[i as int]@);
        if captures[i].resolved_type.is_none() {
            assert(views[i as int].resolved_type is None);
            return false;
        }
        i += 1;
    }
    true
}

impl<'a> LowerCtx<'a> {
    fn insert_return_provenance(&mut self, name: &str, provenance: CallableSendProvenance)
        ensures
            final(self)@ == (LowerState {
                return_provenance: with_entry(
                    old(self)@.return_provenance,
                    name@,
                    provenance@,
                ),
                ..old(self)@
            }),
    {
        let ghost view = provenance@;
        let ghost before = self.callable_return_provenance@;
        proof {
            table_view_keeps_positions(before, name@, 0);
            crate::table::key_position_is_first(before, name@, 0);
        }
        self.callable_return_provenance.insert(name.to_owned(), provenance);
        assert(self@.return_provenance =~= with_entry(old(self)@.return_provenance, name@, view));
    }

    /// The provenance that calls of a function pass on.
    pub(crate) fn return_provenance_of(&self, function: &str) -> (provenance: Option<
        CallableSendProvenance,
    >)
        ensures
            match provenance {
                Some(provenance) => value_of(self@.return_provenance, function@) == Some(
                    provenance@,
                ),
                None => value_of(self@.return_provenance, function@) is None,
            },
    {
        proof {
            table_view_keeps_positions(self.callable_return_provenance@, function@, 0);
            crate::table::key_position_is_first(self.callable_return_provenance@, function@, 0);
        }
        match self.callable_return_provenance.get(function) {
            Some(provenance) => Some(provenance.clone()),
            None => None,
        }
    }

    /// The thread-safety types of captures whose types are known.
    fn resolved_provenance(&mut self, captures: &Vec<ClosureCapture>) -> (parts: Vec<
        CallableCaptureProvenance,
    >)
        requires
            all_resolved(closure_captures_view(captures@)),
        ensures
            ({
                let (typed, safety) = typed_captures(
                    old(self)@.safety,
                    resolved_types(closure_captures_view(captures@)),
                    0,
                );
                captures_view(parts@) == typed && final(self)@ == (LowerState {
                    safety,
                    ..old(self)@
                })
            }),
    {
        let ghost views = closure_captures_view(captures@);
        let ghost types = resolved_types(views);
        let ghost whole = typed_captures(self@.safety, types, 0);
        let mut parts: Vec<CallableCaptureProvenance> = Vec::new();
        let mut i: usize = 0;
        assert(captures_view(parts@) =~= Seq::empty());
        assert(whole.0 =~= Seq::<CaptureProvenanceView>::empty() + whole.0);
        while i < captures.len()
            invariant
                i <= captures.len(),
                views == closure_captures_view(captures@),
                views.len() == captures.len(),
                types == resolved_types(views),
                all_resolved(views),
                self@ == (LowerState { safety: self@.safety, ..old(self)@ }),
                ({
                    let rest = typed_captures(self@.safety, types, i as int);
                    whole == (captures_view(parts@) + rest.0, rest.1)
                }),
            decreases captures.len() - i,
        {
            let capture = &captures[i];
            let ghost before = captures_view(parts@);
            let ghost rest = typed_captures(self@.safety, types, i as int);
            assert(views[i as int] == capture@);
            match &capture.resolved_type {
                Some(ty) => {
                    assert(types[i as int] == (capture.name@, ty@));
                    let safety = self.safety.thread_safety_type(ty);
                    let part = CallableCaptureProvenance::new(capture.name.as_str(), safety);
                    let ghost next = typed_captures(self@.safety, types, i + 1);
                    let ghost view = part@;
                    assert(rest.0 == seq![view] + next.0);
                    parts.push(part);
                    assert(captures_view(parts@) =~= before + seq![view]);
                    assert(captures_view(parts@) + next.0 =~= before + rest.0);
                },
                None => {
                    assert(views[i as int].resolved_type is Some);
                },
            }
            i += 1;
        }
        assert(whole.0 =~= captures_view(parts@));
        parts
    }

    fn certify(&mut self, function: &Function)
        ensures
            final(self)@ == old(self)@.certifying(*function),
    {
        let analysis = analyze_function_closure_ownership(function, self.resolver);
        let returned = returned_closures(&analysis.closures);
        if returned.len() != 1 {
            return;
        }
        let closure = &analysis.closures[returned[0]];
        proof {
            assert(closures_view(analysis.closures@)[returned@[0] as int] == closure@);
        }
        let name = function.name.0.as_str();
        let provenance = if captures_resolved(&closure.captures) {
            let captures = self.resolved_provenance(&closure.captures);
            let number = decimal(closure.closure_id as u64);
            CallableSendProvenance::OwnedClosure {
                origin: concat3(name, "::__glyph_closure_", number.as_str()),
                captures,
            }
        } else {
            CallableSendProvenance::Unknown {
                reason: concat3(
                    "returned closure from '",
                    name,
                    "' has an unresolved capture layout",
                ),
            }
        };
        self.insert_return_provenance(name, provenance);
    }

    /// The start of lowering a function of a module.
    pub fn new(
        resolver: &'a ResolverContext,
        module: &'a Module,
        fn_sigs: &'a NameMap<FnSig>,
        function_name: String,
        spaces: &mut IdentitySpaces,
    ) -> (context: LowerCtx<'a>)
        ensures
            context@ == LowerState::start(
                *resolver,
                *module,
                fn_sigs@,
                function_name@,
                old(spaces).upcoming(),
            ),
            final(spaces).upcoming() == (if old(spaces).upcoming() == u64::MAX {
                0
            } else {
                old(spaces).upcoming() + 1
            }),
    {
        let safety = SafetyTyping::new(resolver, spaces);
        let blocks: Vec<MirBlock> = vec![MirBlock { insts: Vec::new() }];
        let scope_stack: Vec<Vec<LocalId>> = vec![Vec::new()];
        let binding_undo: Vec<Vec<(String, Option<LocalId>)>> = vec![Vec::new()];
        let mut context = LowerCtx {
            resolver,
            module,
            fn_sigs,
            diagnostics: Vec::new(),
            locals: Vec::new(),
            bindings: NameMap::new(),
            next_local: 0,
            function_name: function_name.clone(),
            fn_ret_type: None,
            blocks,
            current: BlockId(0),
            loop_stack: Vec::new(),
            scope_stack,
            binding_undo,
            local_states: Vec::new(),
            local_scope_depths: Vec::new(),
            implicit_deref_locals: HashSet::new(),
            lexical_loans: Vec::new(),
            scoped_loan_reservations: Vec::new(),
            active_scoped_fnmut_tasks: Vec::new(),
            known_borrowed_callables: HashSet::new(),
            arc_loans: IdMap::new(),
            mutex_loans: IdMap::new(),
            mutex_guard_borrows: IdMap::new(),
            mutex_try_option_locals: HashSet::new(),
            string_counter: 0,
            source_binding_locals: Vec::new(),
            closure_infos: Vec::new(),
            lifted_functions: Vec::new(),
            closure_name_root: function_name,
            callable_provenance: CallableProvenanceTable::default(),
            callable_return_provenance: NameMap::new(),
            safety,
            thread_handle_locals: HashSet::new(),
            scoped_callback_scopes: Vec::new(),
            scoped_thread_handle_locals: HashSet::new(),
        };
        let ghost empty = LowerState::empty(
            *resolver,
            *module,
            fn_sigs@,
            function_name@,
            old(spaces).upcoming(),
        );
        proof {
            assert(context@.diagnostics =~= empty.diagnostics);
            assert(context@.locals =~= empty.locals);
            assert(insts_view(blocks@[0].insts@) =~= Seq::empty());
            assert(context@.blocks =~= empty.blocks);
            assert(context@.scopes =~= empty.scopes);
            assert(hidden_view(binding_undo@[0]@) =~= Seq::empty());
            assert(context@.hidden =~= empty.hidden);
            assert(context@.source_bindings =~= empty.source_bindings);
            assert(context@.provenance =~= empty.provenance);
            assert(context@.return_provenance =~= empty.return_provenance);
            assert(context@ == empty);
        }
        let mut i: usize = 0;
        while i < module.items.len()
            invariant
                i <= module.items.len(),
                context@.certifying_from(module.items@, i as int) == empty.certifying_from(
                    module.items@,
                    0,
                ),
            decreases module.items.len() - i,
        {
            match &module.items[i] {
                Item::Function(function) => {
                    context.certify(function);
                },
                _ => {},
            }
            i += 1;
        }
        context
    }
}

/// What a capture refers to.
pub open spec fn referent(ty: Option<TypeView>) -> TypeView {
    match ty {
        Some(TypeView::Ref(inner, _)) => *inner,
        Some(ty) => ty,
        None => TypeView::Void,
    }
}

/// Whether a type is a thread scope or the handle of a scoped task.
pub open spec fn is_scope_token(ty: TypeView) -> bool {
    ty == TypeView::Named(SCOPED_THREAD_SCOPE_TYPE@) || canonical_argument(
        ty,
        SCOPED_THREAD_HANDLE_TYPE@,
    ) is Some
}

impl LowerState {
    pub open spec fn after_typing(self, ty: TypeView) -> LowerState {
        LowerState { safety: self.safety.after_typing(ty), ..self }
    }

    /// Whether a task may capture what a loan refers to: a shared capture has to
    /// be `Sync`, an exclusive one `Send`.
    pub open spec fn capture_verdict(self, loan: LexicalLoan) -> Verdict {
        let ty = referent(self.local_type(loan.owner));
        let registry = self.after_typing(ty).safety.registry;
        match loan.kind {
            BorrowKind::Shared => root_verdict(
                registry,
                self.safety.safety_type(ty),
                ThreadSafetyRequirement::Sync,
                "shared scoped capture"@,
            ),
            BorrowKind::Mutable => root_verdict(
                registry,
                self.safety.safety_type(ty),
                ThreadSafetyRequirement::Send,
                "mutable scoped capture"@,
            ),
        }
    }

    /// The state after the captures behind the loans from position `i` on were
    /// checked, and whether all of them may be captured.
    pub open spec fn checking_captures(self, loans: Seq<LexicalLoan>, span: Span, i: int) -> (
        LowerState,
        bool,
    )
        decreases loans.len() - i,
    {
        if i < 0 || i >= loans.len() {
            (self, true)
        } else {
            let ty = referent(self.local_type(loans[i].owner));
            if is_scope_token(ty) {
                let reported = self.error(
                    "a scoped task cannot capture Scope or ScopedJoinHandle; nested spawn from a worker is not supported"@,
                    Some(span),
                );
                (reported.checking_captures(loans, span, i + 1).0, false)
            } else {
                match self.capture_verdict(loans[i]) {
                    Ok(_) => self.after_typing(ty).checking_captures(loans, span, i + 1),
                    Err(error) => {
                        let reported = self.after_typing(ty).error(error.text(), Some(span));
                        (reported.checking_captures(loans, span, i + 1).0, false)
                    },
                }
            }
        }
    }

    /// The check of everything that a scoped task captures.
    pub open spec fn checking_task(self, task: LocalId, span: Span) -> (LowerState, bool) {
        let loans = held_by(self.loans, task, 0);
        if loans.len() == 0 && !self.borrowed_callables.contains(task.0) {
            (
                self.error(
                    "scoped task capture provenance is unavailable; pass a closure literal or function item directly"@,
                    Some(span),
                ),
                false,
            )
        } else {
            self.checking_captures(loans, span, 0)
        }
    }
}

impl<'a> LowerCtx<'a> {
    /// The thread-safety type of a type.
    pub fn thread_safety_type(&mut self, ty: &Type) -> (safety: ThreadSafetyType)
        ensures
            safety@ == old(self)@.safety.safety_type(ty@),
            final(self)@ == old(self)@.after_typing(ty@),
    {
        self.safety.thread_safety_type(ty)
    }

    /// What a loan on a local refers to.
    fn loan_referent(&self, owner: LocalId) -> (ty: Type)
        ensures
            ty@ == referent(self@.local_type(owner)),
    {
        match self.local_ty(owner) {
            Some(ty) => match ty {
                Type::Ref(inner, _) => {
                    let target: &Type = inner;
                    assert(*(ty@->Ref_0) == target@);
                    target.clone()
                },
                _ => ty.clone(),
            },
            None => Type::Void,
        }
    }

    /// Whether everything that a scoped task captures may cross into its
    /// thread. Each reason why not is reported.
    pub fn validate_scoped_task_captures(&mut self, task: LocalId, span: Span) -> (valid: bool)
        ensures
            (final(self)@, valid) == old(self)@.checking_task(task, span),
    {
        let loans = loans_held_by(&self.lexical_loans, task);
        if loans.len() == 0 && !self.known_borrowed_callables.contains(&task.0) {
            self.error(
                "scoped task capture provenance is unavailable; pass a closure literal or function item directly",
                Some(span),
            );
            return false;
        }
        let mut valid = true;
        let mut i: usize = 0;
        while i < loans.len()
            invariant
                i <= loans.len(),
                ({
                    let rest = self@.checking_captures(loans@, span, i as int);
                    old(self)@.checking_captures(loans@, span, 0) == (rest.0, valid && rest.1)
                }),
            decreases loans.len() - i,
        {
            let loan = loans[i];
            let ty = self.loan_referent(loan.owner);
            if same_type(&ty, &canonical_thread_scope_type()) || is_canonical_scoped_thread_handle(
                &ty,
            ) {
                self.error(
                    "a scoped task cannot capture Scope or ScopedJoinHandle; nested spawn from a worker is not supported",
                    Some(span),
                );
                valid = false;
            } else {
                let checked = self.thread_safety_type(&ty);
                let result = match loan.kind {
                    BorrowKind::Shared => self.safety.registry.check_sync(
                        "shared scoped capture",
                        &checked,
                    ),
                    BorrowKind::Mutable => self.safety.registry.check_send(
                        "mutable scoped capture",
                        &checked,
                    ),
                };
                match result {
                    Ok(()) => {},
                    Err(error) => {
                        let message = error.message();
                        self.error(message.as_str(), Some(span));
                        valid = false;
                    },
                }
            }
            i += 1;
        }
        valid
    }
}

} // verus!
