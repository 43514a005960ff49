//! The mathematical model of lowering one function: what each operation does to
//! the blocks, the locals, the loans and the diagnostics.

use vstd::prelude::*;

use crate::ast::Module;
use crate::closure_analysis::{counted_up, ClosureInfo};
use crate::diag::{error_view, help_view, note_view, DiagnosticView, Span};
use crate::lower::kinds::{has_drop_glue, holds_guard, is_guard, moves_on_use, spelled};
use crate::lower::safety::SafetyTypingView;
use crate::mir::{
    BlockId, BorrowKind, BorrowedClosureCaptureView, CaptureTransfer, ClosureCaptureView, LocalId,
    LocalView, MirFunction, MirInstView, MirValue, RvalueView,
};
use crate::resolver::ResolverContext;
use crate::table::{has_key, value_of, with_entry, without_key};
use crate::thread_safety::{CaptureProvenanceView, SendProvenanceView};
use crate::types::{BorrowedCallableKind, Mutability, Type, TypeView};

verus! {

/// The blocks that a loop continues at and leaves to, and the depth of the
/// scopes around its body.
#[derive(Debug, Clone, Copy, PartialEq, Eq, Structural)]
pub struct LoopContext {
    pub continue_target: BlockId,
    pub exit: BlockId,
    /// Locals in deeper scopes must be dropped on `break` and `continue`.
    pub scope_depth: usize,
}

#[derive(Debug, Clone, Copy, PartialEq, Eq, Structural)]
pub enum LocalState {
    Uninitialized,
    Initialized,
    Moved,
}

/// An immutable reference produced by `Arc::borrow()` remains tied to the owner
/// local that created it.
#[derive(Debug, Clone, Copy, PartialEq, Eq, Structural)]
pub struct ArcLoan {
    pub owner: LocalId,
    pub creation_scope: usize,
    pub origin: Span,
}

/// A guard keeps its mutex locked.
#[derive(Debug, Clone, Copy, PartialEq, Eq, Structural)]
pub struct MutexLoan {
    pub owner: LocalId,
    pub creation_scope: usize,
    pub origin: Span,
}

/// A reference borrowed from a guard.
#[derive(Debug, Clone, Copy, PartialEq, Eq, Structural)]
pub struct MutexGuardBorrow {
    pub guard: LocalId,
    pub creation_scope: usize,
    pub origin: Span,
}

/// A conservative, whole-local loan held by a lexical MIR local.
#[derive(Debug, Clone, Copy, PartialEq, Eq, Structural)]
pub struct LexicalLoan {
    pub owner: LocalId,
    pub kind: BorrowKind,
    pub creation_scope: usize,
    pub origin: Span,
}

/// A loan together with the local, or the thread scope, that holds it.
#[derive(Debug, Clone, Copy, PartialEq, Eq, Structural)]
pub struct HeldLoan {
    pub holder: LocalId,
    pub loan: LexicalLoan,
}

/// How an enum constructor is called.
#[derive(Debug, PartialEq, Eq)]
pub struct EnumCtorInfo {
    pub enum_name: String,
    pub variant_index: usize,
    pub has_generics: bool,
}

impl Clone for EnumCtorInfo {
    fn clone(&self) -> (copy: EnumCtorInfo)
        ensures
            copy == *self,
    {
        EnumCtorInfo {
            enum_name: self.enum_name.clone(),
            variant_index: self.variant_index,
            has_generics: self.has_generics,
        }
    }
}

/// What is known of a function that can be called by name.
#[derive(Debug, PartialEq, Eq)]
pub struct FnSig {
    pub params: Vec<Option<Type>>,
    pub ret: Option<Type>,
    pub target_name: String,
    pub enum_ctor: Option<EnumCtorInfo>,
}

/// The first loan on `owner` from position `i` on; only exclusive ones if asked.
pub open spec fn loan_on(loans: Seq<HeldLoan>, owner: LocalId, exclusive: bool, i: int) -> Option<
    LexicalLoan,
>
    decreases loans.len() - i,
{
    if i < 0 || i >= loans.len() {
        None
    } else if loans[i].loan.owner == owner && (exclusive ==> loans[i].loan.kind
        == BorrowKind::Mutable) {
        Some(loans[i].loan)
    } else {
        loan_on(loans, owner, exclusive, i + 1)
    }
}

/// The loans that `holder` holds, from position `i` on.
pub open spec fn held_by(loans: Seq<HeldLoan>, holder: LocalId, i: int) -> Seq<LexicalLoan>
    decreases loans.len() - i,
{
    if i < 0 || i >= loans.len() {
        Seq::empty()
    } else {
        let rest = held_by(loans, holder, i + 1);
        if loans[i].holder == holder {
            seq![loans[i].loan] + rest
        } else {
            rest
        }
    }
}

/// The loans that others than `holder` hold, from position `i` on.
pub open spec fn held_by_others(loans: Seq<HeldLoan>, holder: LocalId, i: int) -> Seq<HeldLoan>
    decreases loans.len() - i,
{
    if i < 0 || i >= loans.len() {
        Seq::empty()
    } else {
        let rest = held_by_others(loans, holder, i + 1);
        if loans[i].holder == holder {
            rest
        } else {
            seq![loans[i]] + rest
        }
    }
}

/// The tasks of other scopes than `scope`, from position `i` on.
pub open spec fn tasks_of_others(tasks: Seq<(LocalId, LocalId)>, scope: LocalId, i: int) -> Seq<
    (LocalId, LocalId),
>
    decreases tasks.len() - i,
{
    if i < 0 || i >= tasks.len() {
        Seq::empty()
    } else {
        let rest = tasks_of_others(tasks, scope, i + 1);
        if tasks[i].0 == scope {
            rest
        } else {
            seq![tasks[i]] + rest
        }
    }
}

/// The local bound by the latest declaration of that name and place.
pub open spec fn bound_before(
    bindings: Seq<(Seq<char>, Span, LocalId)>,
    name: Seq<char>,
    span: Span,
    i: int,
) -> Option<LocalId>
    decreases i,
{
    if i <= 0 || i > bindings.len() {
        None
    } else if bindings[i - 1].0 == name && bindings[i - 1].1 == span {
        Some(bindings[i - 1].2)
    } else {
        bound_before(bindings, name, span, i - 1)
    }
}

/// The first `Arc` loan on `owner` from position `i` on.
pub open spec fn arc_loan_on(loans: Seq<(u32, ArcLoan)>, owner: LocalId, i: int) -> Option<ArcLoan>
    decreases loans.len() - i,
{
    if i < 0 || i >= loans.len() {
        None
    } else if loans[i].1.owner == owner {
        Some(loans[i].1)
    } else {
        arc_loan_on(loans, owner, i + 1)
    }
}

/// The position of the first lock on `owner` from position `i` on.
pub open spec fn lock_on(loans: Seq<(u32, MutexLoan)>, owner: LocalId, i: int) -> Option<int>
    decreases loans.len() - i,
{
    if i < 0 || i >= loans.len() {
        None
    } else if loans[i].1.owner == owner {
        Some(i)
    } else {
        lock_on(loans, owner, i + 1)
    }
}

/// The first reference borrowed from `guard` from position `i` on.
pub open spec fn guard_borrow_on(
    borrows: Seq<(u32, MutexGuardBorrow)>,
    guard: LocalId,
    i: int,
) -> Option<MutexGuardBorrow>
    decreases borrows.len() - i,
{
    if i < 0 || i >= borrows.len() {
        None
    } else if borrows[i].1.guard == guard {
        Some(borrows[i].1)
    } else {
        guard_borrow_on(borrows, guard, i + 1)
    }
}

/// Where an rvalue stores an operand: the operand and how diagnostics call the
/// place.
pub open spec fn stored_operands(value: RvalueView) -> Seq<(MirValue, Seq<char>)> {
    match value {
        RvalueView::StructLit { field_values, .. } => Seq::new(
            field_values.len(),
            |i: int| (field_values[i].1, "an aggregate"@),
        ),
        RvalueView::ArrayLit { elements, .. } => Seq::new(
            elements.len(),
            |i: int| (elements[i], "an array"@),
        ),
        RvalueView::EnumConstruct { payload: Some(payload), .. } => seq![
            (payload, "an enum payload"@),
        ],
        RvalueView::VecPush { value, .. } => seq![(value, "a Vec"@)],
        RvalueView::MapAdd { key, value, .. } => seq![(key, "a Map"@), (value, "a Map"@)],
        RvalueView::MapUpdate { key, value, .. } => seq![(key, "a Map"@), (value, "a Map"@)],
        RvalueView::OwnNew { value, .. } => seq![(value, "an Own allocation"@)],
        RvalueView::SharedNew { value, .. } => seq![(value, "a Shared allocation"@)],
        RvalueView::ArcNew { value, .. } => seq![(value, "an Arc allocation"@)],
        RvalueView::MutexNew { value, .. } => seq![(value, "a Mutex allocation"@)],
        _ => Seq::empty(),
    }
}

/// The operands that an rvalue takes ownership of.
pub open spec fn owned_operands(value: RvalueView) -> Seq<MirValue> {
    match value {
        RvalueView::VecPush { value, .. } => seq![value],
        RvalueView::StructLit { field_values, .. } => Seq::new(
            field_values.len(),
            |i: int| field_values[i].1,
        ),
        RvalueView::EnumConstruct { payload: Some(payload), .. } => seq![payload],
        RvalueView::ArcNew { value, .. } => seq![value],
        RvalueView::MutexNew { value, .. } => seq![value],
        RvalueView::MapAdd { key, value, .. } => seq![key, value],
        RvalueView::MapUpdate { key, value, .. } => seq![key, value],
        _ => Seq::empty(),
    }
}

/// Whether control leaves the block at this instruction.
pub open spec fn is_terminator(inst: MirInstView) -> bool {
    inst is Return || inst is Goto || inst is If
}

pub open spec fn ends_block(insts: Seq<MirInstView>) -> bool {
    insts.len() > 0 && is_terminator(insts.last())
}

/// A place in the source, or the one where a loan began.
pub open spec fn or_origin(span: Option<Span>, origin: Span) -> Option<Span> {
    match span {
        Some(span) => Some(span),
        None => Some(origin),
    }
}

/// Whether a type is that of an exclusive callable.
pub open spec fn is_fn_mut(ty: Option<TypeView>) -> bool {
    ty matches Some(TypeView::BorrowedFunction { kind, .. }) && kind == BorrowedCallableKind::FnMut
}

/// Everything that lowering of one function has found out and produced so far.
pub struct LowerState {
    pub resolver: ResolverContext,
    pub module: Module,
    pub fn_sigs: Seq<(Seq<char>, FnSig)>,
    pub diagnostics: Seq<DiagnosticView>,
    pub locals: Seq<LocalView>,
    pub bindings: Seq<(Seq<char>, LocalId)>,
    pub next_local: u32,
    pub function_name: Seq<char>,
    pub fn_ret_type: Option<TypeView>,
    pub blocks: Seq<Seq<MirInstView>>,
    pub current: BlockId,
    pub loops: Seq<LoopContext>,
    pub scopes: Seq<Seq<LocalId>>,
    /// For each scope, the bindings that its own ones hide.
    pub hidden: Seq<Seq<(Seq<char>, Option<LocalId>)>>,
    pub states: Seq<LocalState>,
    pub depths: Seq<usize>,
    pub implicit_derefs: Set<u32>,
    pub loans: Seq<HeldLoan>,
    pub reservations: Seq<HeldLoan>,
    pub fn_mut_tasks: Seq<(LocalId, LocalId)>,
    pub borrowed_callables: Set<u32>,
    pub arc_loans: Seq<(u32, ArcLoan)>,
    pub locks: Seq<(u32, MutexLoan)>,
    pub guard_borrows: Seq<(u32, MutexGuardBorrow)>,
    pub try_lock_options: Set<u32>,
    pub string_counter: u32,
    pub source_bindings: Seq<(Seq<char>, Span, LocalId)>,
    pub closure_infos: Seq<ClosureInfo>,
    pub lifted_functions: Seq<MirFunction>,
    pub closure_name_root: Seq<char>,
    pub provenance: Map<u32, SendProvenanceView>,
    pub return_provenance: Seq<(Seq<char>, SendProvenanceView)>,
    pub safety: SafetyTypingView,
    pub thread_handles: Set<u32>,
    pub callback_scopes: Seq<LocalId>,
    pub scoped_handles: Set<u32>,
}

/// Reading the state.
impl LowerState {
    pub open spec fn has_local(self, local: LocalId) -> bool {
        (local.0 as int) < self.locals.len()
    }

    /// The type of a local, where it is known.
    pub open spec fn local_type(self, local: LocalId) -> Option<TypeView> {
        if self.has_local(local) {
            self.locals[local.0 as int].ty
        } else {
            None
        }
    }

    /// The name of a local that has one.
    pub open spec fn local_name(self, local: LocalId) -> Option<Seq<char>> {
        if self.has_local(local) {
            self.locals[local.0 as int].name
        } else {
            None
        }
    }

    /// How diagnostics call a local.
    pub open spec fn shown_name(self, local: LocalId) -> Seq<char> {
        match self.local_name(local) {
            Some(name) => name,
            None => "<temporary>"@,
        }
    }

    pub open spec fn skips_drop(self, local: LocalId) -> bool {
        self.has_local(local) && self.locals[local.0 as int].skip_drop
    }

    pub open spec fn state_of(self, local: LocalId) -> Option<LocalState> {
        if (local.0 as int) < self.states.len() {
            Some(self.states[local.0 as int])
        } else {
            None
        }
    }

    /// The depth of the scope that a local was created in.
    pub open spec fn depth_of(self, local: LocalId, unknown: usize) -> usize {
        if (local.0 as int) < self.depths.len() {
            self.depths[local.0 as int]
        } else {
            unknown
        }
    }

    pub open spec fn is_droppable(self, local: LocalId) -> bool {
        self.local_type(local) matches Some(ty) && has_drop_glue(ty)
    }

    pub open spec fn needs_drop(self, local: LocalId) -> bool {
        self.local_type(local) matches Some(ty) && moves_on_use(ty)
    }

    pub open spec fn is_guard_local(self, local: LocalId) -> bool {
        self.local_type(local) matches Some(ty) && is_guard(ty)
    }

    /// Whether using the local as a value moves it.
    pub open spec fn uses_ownership_tracking(self, local: LocalId) -> bool {
        self.needs_drop(local) || self.is_guard_local(local)
    }

    /// The local that a borrow of `local` reaches.
    pub open spec fn loan_root(self, local: LocalId) -> LocalId {
        let held = held_by(self.loans, local, 0);
        if held.len() > 0 {
            held[0].owner
        } else {
            local
        }
    }

    pub open spec fn holds_loan(self, local: LocalId) -> bool {
        held_by(self.loans, local, 0).len() > 0
    }

    /// A live loan on `owner`, held by a local or by a thread scope.
    pub open spec fn active_loan(self, owner: LocalId, exclusive: bool) -> Option<LexicalLoan> {
        match loan_on(self.loans, owner, exclusive, 0) {
            Some(loan) => Some(loan),
            None => loan_on(self.reservations, owner, exclusive, 0),
        }
    }

    /// The loan that forbids a new borrow of `owner`.
    pub open spec fn borrow_conflict(self, owner: LocalId, kind: BorrowKind) -> Option<LexicalLoan> {
        self.active_loan(owner, kind == BorrowKind::Shared)
    }

    /// The loan that forbids invalidating an `Arc` owner.
    pub open spec fn arc_conflict(self, owner: LocalId) -> Option<ArcLoan> {
        if self.local_type(owner) matches Some(ty) && ty.is_arc() {
            arc_loan_on(self.arc_loans, owner, 0)
        } else {
            None
        }
    }

    /// Whether an operand is a borrowed reference or callable.
    pub open spec fn is_borrowed_operand(self, value: MirValue) -> bool {
        value matches MirValue::Local(local) && self.is_borrowed_local(local)
    }

    pub open spec fn is_borrowed_local(self, local: LocalId) -> bool {
        self.holds_loan(local) || (self.local_type(local) matches Some(ty) && ty is BorrowedFunction)
    }

    pub open spec fn is_guarded_operand(self, value: MirValue) -> bool {
        value matches MirValue::Local(local) && (has_key(self.locks, local.0) || has_key(
            self.guard_borrows,
            local.0,
        ) || self.has_guard_type(local))
    }

    pub open spec fn has_guard_type(self, local: LocalId) -> bool {
        self.local_type(local) matches Some(ty) && holds_guard(ty)
    }

    /// Whether control has left the current block.
    pub open spec fn terminated(self) -> bool {
        (self.current.0 as int) < self.blocks.len() && ends_block(
            self.blocks[self.current.0 as int],
        )
    }

    /// The local that a declaration was given.
    pub open spec fn source_binding(self, name: Seq<char>, span: Span) -> Option<LocalId> {
        bound_before(self.source_bindings, name, span, self.source_bindings.len() as int)
    }

    /// How a local is called in a diagnostic about its use.
    pub open spec fn use_text(self, problem: Seq<char>, local: LocalId) -> Seq<char> {
        let named = match self.local_name(local) {
            Some(name) => " `"@ + name + "`"@,
            None => Seq::empty(),
        };
        let typed = match self.local_type(local) {
            Some(ty) => " of type `"@ + spelled(ty) + "`"@,
            None => Seq::empty(),
        };
        problem + "value"@ + named + typed
    }

    /// How a guard is called in a diagnostic about its use.
    pub open spec fn guard_use_text(self, problem: Seq<char>, local: LocalId, advice: Seq<char>) -> Seq<
        char,
    > {
        let named = match self.local_name(local) {
            Some(name) => "guard `"@ + name + "`"@,
            None => "guard value"@,
        };
        problem + named + advice
    }
}

/// Single changes.
impl LowerState {
    pub open spec fn error(self, message: Seq<char>, span: Option<Span>) -> LowerState {
        LowerState { diagnostics: self.diagnostics.push(error_view(message, span)), ..self }
    }

    pub open spec fn note(self, message: Seq<char>, span: Option<Span>) -> LowerState {
        LowerState { diagnostics: self.diagnostics.push(note_view(message, span)), ..self }
    }

    pub open spec fn help(self, message: Seq<char>, span: Option<Span>) -> LowerState {
        LowerState { diagnostics: self.diagnostics.push(help_view(message, span)), ..self }
    }

    /// An unknown local has no state to change.
    pub open spec fn with_state(self, local: LocalId, state: LocalState) -> LowerState {
        if (local.0 as int) < self.states.len() {
            LowerState { states: self.states.update(local.0 as int, state), ..self }
        } else {
            self
        }
    }

    pub open spec fn with_type(self, local: LocalId, ty: TypeView) -> LowerState {
        if self.has_local(local) {
            let changed = LocalView { ty: Some(ty), ..self.locals[local.0 as int] };
            LowerState { locals: self.locals.update(local.0 as int, changed), ..self }
        } else {
            self
        }
    }

    /// The local is not dropped at the end of its scope.
    pub open spec fn without_drop(self, local: LocalId) -> LowerState {
        if self.has_local(local) {
            let changed = LocalView { skip_drop: true, ..self.locals[local.0 as int] };
            LowerState { locals: self.locals.update(local.0 as int, changed), ..self }
        } else {
            self
        }
    }

    pub open spec fn with_current_insts(self, insts: Seq<MirInstView>) -> LowerState {
        LowerState { blocks: self.blocks.update(self.current.0 as int, insts), ..self }
    }

    /// The instruction at the end of the current block.
    pub open spec fn emitted(self, inst: MirInstView) -> LowerState {
        if (self.current.0 as int) < self.blocks.len() {
            self.with_current_insts(self.blocks[self.current.0 as int].push(inst))
        } else {
            self
        }
    }

    /// The instruction at the end of the current block, but before the
    /// instruction that leaves it.
    pub open spec fn emitted_inside(self, inst: MirInstView) -> LowerState {
        if self.terminated() {
            let insts = self.blocks[self.current.0 as int];
            self.with_current_insts(insts.insert(insts.len() - 1, inst))
        } else {
            self.emitted(inst)
        }
    }

    /// The next local, without a type and not initialized, in the innermost
    /// scope.
    pub open spec fn with_fresh_local(self, name: Option<Seq<char>>) -> LowerState {
        let id = LocalId(self.next_local);
        LowerState {
            next_local: counted_up(self.next_local),
            locals: self.locals.push(
                LocalView { name, ty: None, mutable: false, skip_drop: false },
            ),
            states: self.states.push(LocalState::Uninitialized),
            depths: self.depths.push(
                if self.scopes.len() == 0 {
                    0
                } else {
                    (self.scopes.len() - 1) as usize
                },
            ),
            scopes: if self.scopes.len() == 0 {
                self.scopes
            } else {
                self.scopes.update(self.scopes.len() - 1, self.scopes.last().push(id))
            },
            ..self
        }
    }

    /// A fresh local of a given type.
    #[verifier::opaque]
    pub open spec fn with_typed_local(self, ty: TypeView) -> LowerState {
        self.with_fresh_local(None).with_type(LocalId(self.next_local), ty)
    }

    #[verifier::opaque]
    pub open spec fn with_thread_handle_local(self, ty: TypeView) -> LowerState {
        let typed = self.with_typed_local(ty);
        LowerState { thread_handles: typed.thread_handles.insert(self.next_local), ..typed }
    }

    pub open spec fn with_scoped_handle_local(self, ty: TypeView) -> LowerState {
        self.with_typed_local(ty).with_scoped_handle(LocalId(self.next_local))
    }

    pub open spec fn with_scoped_handle(self, local: LocalId) -> LowerState {
        LowerState { scoped_handles: self.scoped_handles.insert(local.0), ..self }
    }

    pub open spec fn with_callback_scope(self, local: LocalId) -> LowerState {
        if self.callback_scopes.contains(local) {
            self
        } else {
            LowerState { callback_scopes: self.callback_scopes.push(local), ..self }
        }
    }

    pub open spec fn with_binding(self, name: Seq<char>, local: LocalId) -> LowerState {
        LowerState {
            bindings: with_entry(self.bindings, name, local),
            hidden: if self.hidden.len() == 0 {
                self.hidden
            } else {
                self.hidden.update(
                    self.hidden.len() - 1,
                    self.hidden.last().push((name, value_of(self.bindings, name))),
                )
            },
            ..self
        }
    }

    pub open spec fn with_new_block(self) -> LowerState {
        LowerState { blocks: self.blocks.push(Seq::empty()), ..self }
    }

    /// The identity of the block that is added next.
    pub open spec fn next_block(self) -> BlockId {
        BlockId(self.blocks.len() as u32)
    }

    pub open spec fn at_block(self, block: BlockId) -> LowerState {
        LowerState { current: block, ..self }
    }

    pub open spec fn without_arc_loan(self, holder: LocalId) -> LowerState {
        LowerState { arc_loans: without_key(self.arc_loans, holder.0), ..self }
    }

    pub open spec fn without_loans_of(self, holder: LocalId) -> LowerState {
        LowerState { loans: held_by_others(self.loans, holder, 0), ..self }
    }

    /// The loans of a temporary end with the call that it was made for.
    pub open spec fn without_temporary(self, holder: LocalId) -> LowerState {
        self.without_loans_of(holder).without_arc_loan(holder)
    }

    pub open spec fn without_temporaries(self, holders: Seq<LocalId>, i: int) -> LowerState
        decreases holders.len() - i,
    {
        if i < 0 || i >= holders.len() {
            self
        } else {
            self.without_temporary(holders[i]).without_temporaries(holders, i + 1)
        }
    }

    pub open spec fn without_arc_loans(self, holders: Seq<LocalId>, i: int) -> LowerState
        decreases holders.len() - i,
    {
        if i < 0 || i >= holders.len() {
            self
        } else {
            self.without_arc_loan(holders[i]).without_arc_loans(holders, i + 1)
        }
    }

    pub open spec fn without_loans(self, holders: Seq<LocalId>, i: int) -> LowerState
        decreases holders.len() - i,
    {
        if i < 0 || i >= holders.len() {
            self
        } else {
            self.without_loans_of(holders[i]).without_loans(holders, i + 1)
        }
    }

    /// What a local knew about mutexes and loans is forgotten.
    pub open spec fn without_lock(self, local: LocalId) -> LowerState {
        LowerState {
            locks: without_key(self.locks, local.0),
            guard_borrows: without_key(self.guard_borrows, local.0),
            try_lock_options: self.try_lock_options.remove(local.0),
            ..self
        }.without_loans_of(local)
    }

    pub open spec fn with_provenance(self, local: LocalId, provenance: SendProvenanceView) -> LowerState {
        LowerState { provenance: self.provenance.insert(local.0, provenance), ..self }
    }

    /// A callable keeps its provenance where it is moved to.
    pub open spec fn with_moved_provenance(self, source: LocalId, destination: LocalId) -> LowerState {
        if self.provenance.contains_key(source.0) {
            LowerState {
                provenance: self.provenance.remove(source.0).insert(
                    destination.0,
                    self.provenance[source.0],
                ),
                ..self
            }
        } else {
            self
        }
    }
}

/// Reports of conflicts. Each leaves a state without a conflict as it is.
impl LowerState {
    pub open spec fn reporting_arc_conflict(
        self,
        owner: LocalId,
        action: Seq<char>,
        span: Option<Span>,
    ) -> LowerState {
        match self.arc_conflict(owner) {
            Some(loan) => self.error(
                "cannot "@ + action + " Arc owner `"@ + self.shown_name(owner)
                    + "` while an Arc::borrow() reference is active; the loan lasts until its binding's lexical scope ends"@,
                or_origin(span, loan.origin),
            ),
            None => self,
        }
    }

    pub open spec fn reporting_loan(
        self,
        owner: LocalId,
        action: Seq<char>,
        span: Option<Span>,
    ) -> LowerState {
        match self.active_loan(owner, false) {
            Some(loan) => self.error(
                "cannot "@ + action + " `"@ + self.shown_name(owner) + "` while a "@ + (if loan.kind
                    == BorrowKind::Mutable {
                    "exclusive"@
                } else {
                    "shared"@
                }) + " loan is active"@,
                or_origin(span, loan.origin),
            ),
            None => self,
        }
    }

    pub open spec fn reporting_read(self, owner: LocalId, span: Option<Span>) -> LowerState {
        match self.active_loan(owner, true) {
            Some(loan) => self.error(
                "cannot use `"@ + self.shown_name(owner) + "` while an exclusive loan is active"@,
                or_origin(span, loan.origin),
            ),
            None => self,
        }
    }

    pub open spec fn reporting_lock(
        self,
        owner: LocalId,
        action: Seq<char>,
        span: Option<Span>,
    ) -> LowerState {
        match lock_on(self.locks, owner, 0) {
            Some(i) => {
                let (holder, loan) = self.locks[i];
                self.error(
                    "cannot "@ + action + " Mutex owner `"@ + self.shown_name(owner)
                        + "` while guard `"@ + self.shown_name(LocalId(holder)) + "` is live"@,
                    or_origin(span, loan.origin),
                ).note(
                    "the exclusive Mutex loan begins at this lock operation and lasts until the guard's lexical scope ends"@,
                    Some(loan.origin),
                ).help(
                    "put the guard in a nested block so it unlocks before moving or dropping the Mutex"@,
                    or_origin(span, loan.origin),
                )
            },
            None => self,
        }
    }

    pub open spec fn reporting_guard_borrow(
        self,
        guard: LocalId,
        action: Seq<char>,
        span: Option<Span>,
    ) -> LowerState {
        match guard_borrow_on(self.guard_borrows, guard, 0) {
            Some(borrow) => self.error(
                "cannot "@ + action + " MutexGuard `"@ + self.shown_name(guard)
                    + "` while a reference borrowed from it is live"@,
                or_origin(span, borrow.origin),
            ),
            None => self,
        }
    }

    pub open spec fn reporting_moved(self, local: LocalId, span: Option<Span>) -> LowerState {
        let message = if self.is_guard_local(local) {
            self.guard_use_text(
                "use of moved "@,
                local,
                "; guard values are single-owner and cleanup runs exactly once"@,
            )
        } else {
            self.use_text("use of moved "@, local)
        };
        self.error(message, span).note(
            "Glyph uses single-owner move semantics and conservatively merges ownership across reachable control-flow paths"@,
            span,
        ).help(
            "avoid branch-local moves before unconditional post-branch use, or reinitialize the value on every reachable branch"@,
            span,
        )
    }

    pub open spec fn reporting_uninitialized(self, local: LocalId, span: Option<Span>) -> LowerState {
        let message = if self.is_guard_local(local) {
            self.guard_use_text(
                "use of uninitialized "@,
                local,
                "; initialize the guard before using it"@,
            )
        } else {
            self.use_text("use of uninitialized "@, local)
        };
        self.error(message, span).note(
            "this value is not definitely initialized on all reachable paths"@,
            span,
        ).help("initialize the value on every reachable branch before use"@, span)
    }

    /// A borrow that a live loan forbids.
    pub open spec fn reporting_borrow(
        self,
        base: LocalId,
        kind: BorrowKind,
        span: Span,
    ) -> LowerState {
        let owner = self.loan_root(base);
        match self.borrow_conflict(owner, kind) {
            Some(loan) => self.error(
                (if kind == BorrowKind::Shared {
                    "cannot immutably borrow `"@
                } else {
                    "cannot mutably borrow `"@
                }) + self.shown_name(owner) + (if loan.kind == BorrowKind::Shared {
                    "` while a shared loan is active"@
                } else {
                    "` while an exclusive loan is active"@
                }),
                Some(span),
            ),
            None => self,
        }
    }
}

/// Use, moves and drops of locals.
impl LowerState {
    /// Whether the value of a local can be read.
    #[verifier::opaque]
    pub open spec fn is_available(self, local: LocalId) -> bool {
        self.active_loan(local, true) is None && ((self.is_droppable(local) || self.is_guard_local(
            local,
        )) && !self.skips_drop(local) ==> self.state_of(local) != Some(LocalState::Moved)
            && self.state_of(local) != Some(LocalState::Uninitialized))
    }

    /// What is reported of a local whose value is wanted.
    #[verifier::opaque]
    pub open spec fn checking_available(self, local: LocalId, span: Option<Span>) -> LowerState {
        if self.active_loan(local, true) is Some {
            self.reporting_read(local, span)
        } else if self.is_available(local) {
            self
        } else if self.state_of(local) == Some(LocalState::Moved) {
            self.reporting_moved(local, span)
        } else {
            self.reporting_uninitialized(local, span)
        }
    }

    /// Whether nothing that is alive depends on where a local's value is.
    pub open spec fn is_movable(self, local: LocalId) -> bool {
        self.arc_conflict(local) is None && self.active_loan(local, false) is None && lock_on(
            self.locks,
            local,
            0,
        ) is None && guard_borrow_on(self.guard_borrows, local, 0) is None
    }

    /// The first of the conflicts that keep a local where it is.
    pub open spec fn reporting_immovable(
        self,
        local: LocalId,
        action: Seq<char>,
        span: Option<Span>,
    ) -> LowerState {
        if self.arc_conflict(local) is Some {
            self.reporting_arc_conflict(local, action, span)
        } else if self.active_loan(local, false) is Some {
            self.reporting_loan(local, action, span)
        } else if lock_on(self.locks, local, 0) is Some {
            self.reporting_lock(local, action, span)
        } else {
            self.reporting_guard_borrow(local, action, span)
        }
    }

    /// Whether a local can be moved out of.
    #[verifier::opaque]
    pub open spec fn is_consumable(self, local: LocalId) -> bool {
        self.is_available(local) && self.is_movable(local) && (self.uses_ownership_tracking(local)
            ==> self.state_of(local) == Some(LocalState::Initialized))
    }

    /// The state after moving out of a local, or after the report why not.
    #[verifier::opaque]
    pub open spec fn consuming(self, local: LocalId, span: Option<Span>) -> LowerState {
        if !self.is_available(local) {
            self.checking_available(local, span)
        } else if !self.is_movable(local) {
            self.reporting_immovable(local, "move"@, span)
        } else if !self.uses_ownership_tracking(local) {
            self
        } else if self.state_of(local) == Some(LocalState::Moved) {
            self.reporting_moved(local, span)
        } else if self.state_of(local) == Some(LocalState::Initialized) {
            self.with_state(local, LocalState::Moved)
        } else {
            self.reporting_uninitialized(local, span).with_state(local, LocalState::Moved)
        }
    }

    /// The drop of a local, or the report why it must stay.
    pub open spec fn dropping(self, local: LocalId) -> LowerState {
        if !self.is_movable(local) {
            self.reporting_immovable(local, "drop"@, None)
        } else {
            self.emitted_inside(MirInstView::Drop(local)).with_state(
                local,
                LocalState::Moved,
            ).without_lock(local)
        }
    }

    /// The cleanup that a local needs when its scope ends.
    pub open spec fn dropping_if_needed(self, local: LocalId) -> LowerState {
        let live = self.state_of(local) == Some(LocalState::Initialized);
        if self.skips_drop(local) {
            self
        } else if self.thread_handles.contains(local.0) && live {
            self.emitted(MirInstView::DropThreadHandle(local)).with_state(local, LocalState::Moved)
        } else if self.scoped_handles.contains(local.0) && live {
            self.emitted(MirInstView::DropScopedThreadHandle(local)).with_state(
                local,
                LocalState::Moved,
            )
        } else if self.is_droppable(local) && live {
            self.dropping(local)
        } else {
            self
        }
    }

    /// The old value of a local goes away before it gets a new one.
    pub open spec fn reassigning(self, local: LocalId) -> LowerState {
        if self.arc_conflict(local) is Some {
            self.reporting_arc_conflict(local, "reassign"@, None)
        } else {
            let reported = self.reporting_loan(local, "reassign"@, None);
            if reported.skips_drop(local) || !reported.is_droppable(local) || reported.state_of(local)
                != Some(LocalState::Initialized) {
                reported
            } else if lock_on(reported.locks, local, 0) is Some {
                reported.reporting_lock(local, "reassign"@, None)
            } else if guard_borrow_on(reported.guard_borrows, local, 0) is Some {
                reported.reporting_guard_borrow(local, "reassign"@, None)
            } else {
                reported.dropping(local)
            }
        }
    }

    /// The locals of a scope before position `i` are cleaned up, the last one
    /// first.
    pub open spec fn dropping_before(self, locals: Seq<LocalId>, i: int) -> LowerState
        decreases i,
    {
        if i <= 0 || i > locals.len() {
            self
        } else {
            self.dropping_if_needed(locals[i - 1]).without_lock(locals[i - 1]).dropping_before(
                locals,
                i - 1,
            )
        }
    }

    /// The scopes from `depth` to before position `i` are cleaned up, the
    /// innermost one first.
    pub open spec fn dropping_scopes(
        self,
        scopes: Seq<Seq<LocalId>>,
        depth: int,
        i: int,
    ) -> LowerState
        decreases i,
    {
        if i <= 0 || i <= depth || i > scopes.len() {
            self
        } else {
            self.dropping_before(scopes[i - 1], scopes[i - 1].len() as int).dropping_scopes(
                scopes,
                depth,
                i - 1,
            )
        }
    }

    /// The loans of the scopes from position `i` on end.
    pub open spec fn releasing_scopes(self, scopes: Seq<Seq<LocalId>>, i: int) -> LowerState
        decreases scopes.len() - i,
    {
        if i < 0 || i >= scopes.len() {
            self
        } else {
            self.without_arc_loans(scopes[i], 0).without_loans(scopes[i], 0).releasing_scopes(
                scopes,
                i + 1,
            )
        }
    }

    /// The thread scopes from position `i` on wait for their tasks.
    pub open spec fn draining_from(self, scopes: Seq<LocalId>, i: int) -> LowerState
        decreases scopes.len() - i,
    {
        if i < 0 || i >= scopes.len() {
            self
        } else {
            LowerState {
                reservations: held_by_others(self.reservations, scopes[i], 0),
                fn_mut_tasks: tasks_of_others(self.fn_mut_tasks, scopes[i], 0),
                ..self
            }.emitted_inside(MirInstView::DrainThreadScope(scopes[i])).draining_from(scopes, i + 1)
        }
    }

    pub open spec fn draining(self) -> LowerState {
        self.draining_from(self.callback_scopes, 0)
    }

    /// Leaving all scopes deeper than `depth`, which stay open.
    pub open spec fn dropping_after_depth(self, depth: int) -> LowerState {
        if self.scopes.len() <= depth {
            self
        } else {
            let scopes = self.scopes;
            self.draining().releasing_scopes(scopes, depth).dropping_scopes(
                scopes,
                depth,
                scopes.len() as int,
            )
        }
    }

    /// Leaving the function.
    pub open spec fn dropping_all(self) -> LowerState {
        let scopes = self.scopes;
        self.draining().releasing_scopes(scopes, 0).dropping_scopes(scopes, 0, scopes.len() as int)
    }

    pub open spec fn entering_scope(self) -> LowerState {
        LowerState {
            scopes: self.scopes.push(Seq::empty()),
            hidden: self.hidden.push(Seq::empty()),
            ..self
        }
    }

    /// The hidden bindings before position `i` come back, the last one first.
    pub open spec fn uncovering(self, hidden: Seq<(Seq<char>, Option<LocalId>)>, i: int) -> LowerState
        decreases i,
    {
        if i <= 0 || i > hidden.len() {
            self
        } else {
            LowerState {
                bindings: match hidden[i - 1].1 {
                    Some(local) => with_entry(self.bindings, hidden[i - 1].0, local),
                    None => without_key(self.bindings, hidden[i - 1].0),
                },
                ..self
            }.uncovering(hidden, i - 1)
        }
    }

    /// Leaving the innermost scope. The outermost one is never left.
    pub open spec fn exiting_scope(self) -> LowerState {
        if self.scopes.len() <= 1 {
            self
        } else {
            let drained = self.draining();
            let locals = drained.scopes.last();
            let cleaned = LowerState { scopes: drained.scopes.drop_last(), ..drained }.without_arc_loans(
                locals,
                0,
            ).without_loans(locals, 0).dropping_before(locals, locals.len() as int);
            if cleaned.hidden.len() == 0 {
                cleaned
            } else {
                let hidden = cleaned.hidden.last();
                LowerState { hidden: cleaned.hidden.drop_last(), ..cleaned }.uncovering(
                    hidden,
                    hidden.len() as int,
                )
            }
        }
    }
}

/// Loans, locks and borrowed callables.
impl LowerState {
    /// A new loan on what `base` reaches, unless a live one forbids it.
    pub open spec fn registering_loan(
        self,
        holder: LocalId,
        base: LocalId,
        kind: BorrowKind,
        origin: Span,
    ) -> LowerState {
        let owner = self.loan_root(base);
        if self.borrow_conflict(owner, kind) is Some {
            self.reporting_borrow(base, kind, origin)
        } else {
            let creation_scope = self.depth_of(holder, 0);
            let checked = if self.depth_of(owner, 0) > creation_scope {
                self.error(
                    "a borrowed reference or callable cannot escape to an outer lexical scope"@,
                    Some(origin),
                )
            } else {
                self
            };
            LowerState {
                loans: checked.loans.push(
                    HeldLoan {
                        holder,
                        loan: LexicalLoan { owner, kind, creation_scope, origin },
                    },
                ),
                ..checked
            }
        }
    }

    /// The loans of a borrowing closure's captures from position `i` on.
    pub open spec fn registering_captures(
        self,
        holder: LocalId,
        captures: Seq<BorrowedClosureCaptureView>,
        i: int,
    ) -> LowerState
        decreases captures.len() - i,
    {
        if i < 0 || i >= captures.len() {
            self
        } else {
            self.registering_loan(
                holder,
                captures[i].local,
                captures[i].borrow,
                Span { start: 0, end: 0 },
            ).registering_captures(holder, captures, i + 1)
        }
    }

    /// The loans from position `i` on are shared with `destination`; exclusive
    /// ones cannot be.
    pub open spec fn sharing_loans(
        self,
        loans: Seq<LexicalLoan>,
        destination: LocalId,
        i: int,
    ) -> LowerState
        decreases loans.len() - i,
    {
        if i < 0 || i >= loans.len() {
            self
        } else {
            let loan = loans[i];
            let depth = self.depth_of(destination, 0);
            let next = if loan.kind == BorrowKind::Mutable {
                self.error(
                    "an FnMut or mutable reference cannot be aliased; pass it directly or create a shorter reborrow"@,
                    Some(loan.origin),
                )
            } else {
                let checked = if depth < loan.creation_scope {
                    self.error(
                        "a borrowed reference or callable cannot escape the lexical scope where its loan was created"@,
                        Some(loan.origin),
                    )
                } else {
                    self
                };
                LowerState {
                    loans: checked.loans.push(
                        HeldLoan {
                            holder: destination,
                            loan: LexicalLoan { creation_scope: depth, ..loan },
                        },
                    ),
                    ..checked
                }
            };
            next.sharing_loans(loans, destination, i + 1)
        }
    }

    /// A reference from `Arc::borrow()`.
    #[verifier::opaque]
    pub open spec fn registering_arc_borrow(
        self,
        reference: LocalId,
        owner: LocalId,
        origin: Span,
    ) -> LowerState {
        let lent = self.registering_loan(reference, owner, BorrowKind::Shared, origin);
        LowerState {
            arc_loans: with_entry(
                lent.arc_loans,
                reference.0,
                ArcLoan { owner, creation_scope: lent.depth_of(reference, 0), origin },
            ),
            ..lent
        }
    }

    /// A value that leaves the innermost scope must not be an `Arc` loan made
    /// there.
    pub open spec fn rejecting_arc_escape(self, local: LocalId) -> LowerState {
        match value_of(self.arc_loans, local.0) {
            Some(loan) => if loan.creation_scope == (if self.scopes.len() == 0 {
                0int
            } else {
                self.scopes.len() - 1
            }) {
                self.error(
                    "an Arc::borrow() reference cannot escape the lexical scope where it was created"@,
                    Some(loan.origin),
                )
            } else {
                self
            },
            None => self,
        }
    }

    /// A guard that locks `owner`.
    #[verifier::opaque]
    pub open spec fn registering_guard(
        self,
        holder: LocalId,
        owner: LocalId,
        origin: Span,
    ) -> LowerState {
        let creation_scope = self.depth_of(holder, 0);
        let checked = if self.depth_of(owner, 0) > creation_scope {
            self.error("a MutexGuard cannot outlive the Mutex binding it locks"@, Some(origin))
        } else {
            self
        };
        LowerState {
            locks: with_entry(
                checked.locks,
                holder.0,
                MutexLoan { owner, creation_scope, origin },
            ),
            ..checked
        }
    }

    /// A reference borrowed from a guard.
    #[verifier::opaque]
    pub open spec fn registering_guard_borrow(
        self,
        reference: LocalId,
        guard: LocalId,
        origin: Span,
    ) -> LowerState {
        LowerState {
            guard_borrows: with_entry(
                self.guard_borrows,
                reference.0,
                MutexGuardBorrow { guard, creation_scope: self.depth_of(reference, 0), origin },
            ),
            ..self
        }
    }

    /// A guard, or a reference borrowed from one, goes to another local.
    pub open spec fn moving_lock(self, source: LocalId, destination: LocalId) -> LowerState {
        let locked = match value_of(self.locks, source.0) {
            Some(loan) => {
                let depth = self.depth_of(destination, loan.creation_scope);
                let taken = LowerState { locks: without_key(self.locks, source.0), ..self };
                let checked = if depth < loan.creation_scope {
                    taken.error(
                        "a MutexGuard cannot escape the lexical scope where it was acquired"@,
                        Some(loan.origin),
                    )
                } else {
                    taken
                };
                LowerState {
                    locks: with_entry(
                        checked.locks,
                        destination.0,
                        MutexLoan { creation_scope: depth, ..loan },
                    ),
                    ..checked
                }
            },
            None => self,
        };
        match value_of(locked.guard_borrows, source.0) {
            Some(borrow) => {
                let depth = locked.depth_of(destination, borrow.creation_scope);
                let taken = LowerState {
                    guard_borrows: without_key(locked.guard_borrows, source.0),
                    ..locked
                };
                let checked = if depth < borrow.creation_scope {
                    taken.error(
                        "a reference borrowed from MutexGuard cannot escape its lexical scope"@,
                        Some(borrow.origin),
                    )
                } else {
                    taken
                };
                LowerState {
                    guard_borrows: with_entry(
                        checked.guard_borrows,
                        destination.0,
                        MutexGuardBorrow { creation_scope: depth, ..borrow },
                    ),
                    ..checked
                }
            },
            None => locked,
        }
    }

    /// The task of a scoped spawn keeps its loans until the scope is drained.
    pub open spec fn reserving(self, scope: LocalId, task: LocalId) -> LowerState {
        let marked = if is_fn_mut(self.local_type(task)) {
            LowerState { fn_mut_tasks: self.fn_mut_tasks.push((scope, task)), ..self }
        } else {
            self
        };
        LowerState {
            reservations: marked.reservations + reserved_loans(
                held_by(marked.loans, task, 0),
                scope,
            ),
            ..marked
        }
    }

    /// Whether an exclusive task already runs in the scope.
    pub open spec fn is_reserved(self, scope: LocalId, task: LocalId) -> bool {
        is_fn_mut(self.local_type(task)) && self.fn_mut_tasks.contains((scope, task))
    }
}

/// The loans as held by a thread scope.
pub open spec fn reserved_loans(loans: Seq<LexicalLoan>, scope: LocalId) -> Seq<HeldLoan> {
    Seq::new(loans.len(), |i: int| HeldLoan { holder: scope, loan: loans[i] })
}

/// What must not be stored.
impl LowerState {
    pub open spec fn arc_loan_of(self, value: MirValue) -> Option<ArcLoan> {
        match value {
            MirValue::Local(local) => value_of(self.arc_loans, local.0),
            _ => None,
        }
    }

    /// `Arc` loans among the stored operands from position `i` on.
    pub open spec fn rejecting_stored_arcs(self, stored: Seq<(MirValue, Seq<char>)>, i: int) -> LowerState
        decreases stored.len() - i,
    {
        if i < 0 || i >= stored.len() {
            self
        } else {
            let next = match self.arc_loan_of(stored[i].0) {
                Some(loan) => self.error(
                    "an Arc::borrow() reference cannot be stored in "@ + stored[i].1
                        + "; keep it in a direct lexical binding"@,
                    Some(loan.origin),
                ),
                None => self,
            };
            next.rejecting_stored_arcs(stored, i + 1)
        }
    }

    /// `Arc` loans and lent `Arc` owners among the captures from position `i` on.
    pub open spec fn rejecting_captured_arcs(self, captures: Seq<ClosureCaptureView>, i: int) -> LowerState
        decreases captures.len() - i,
    {
        if i < 0 || i >= captures.len() {
            self
        } else {
            let checked = match value_of(self.arc_loans, captures[i].local.0) {
                Some(loan) => self.error(
                    "an Arc::borrow() reference cannot be captured by a closure; borrow inside the closure from an owned Arc clone instead"@,
                    Some(loan.origin),
                ),
                None => self,
            };
            let next = if captures[i].transfer == CaptureTransfer::Move {
                checked.reporting_arc_conflict(captures[i].local, "move into a closure"@, None)
            } else {
                checked
            };
            next.rejecting_captured_arcs(captures, i + 1)
        }
    }

    pub open spec fn rejecting_arc_storage(self, value: RvalueView) -> LowerState {
        match value {
            RvalueView::MakeClosure { captures, .. } => self.rejecting_captured_arcs(captures, 0),
            RvalueView::ArcNew { .. } | RvalueView::MutexNew { .. } => self,
            _ => self.rejecting_stored_arcs(stored_operands(value), 0),
        }
    }

    pub open spec fn rejecting_stored_loan(self, value: MirValue, place: Seq<char>) -> LowerState {
        if self.is_borrowed_operand(value) {
            self.error(
                "a borrowed reference or callable cannot be stored in "@ + place
                    + "; keep it in a direct lexical binding"@,
                None,
            )
        } else {
            self
        }
    }

    pub open spec fn rejecting_stored_loans(self, stored: Seq<(MirValue, Seq<char>)>, i: int) -> LowerState
        decreases stored.len() - i,
    {
        if i < 0 || i >= stored.len() {
            self
        } else {
            self.rejecting_stored_loan(stored[i].0, stored[i].1).rejecting_stored_loans(
                stored,
                i + 1,
            )
        }
    }

    pub open spec fn rejecting_captured_loans(self, captures: Seq<ClosureCaptureView>, i: int) -> LowerState
        decreases captures.len() - i,
    {
        if i < 0 || i >= captures.len() {
            self
        } else {
            let next = if self.is_borrowed_local(captures[i].local) {
                self.error(
                    "a borrowed reference or callable cannot be captured by an owned closure"@,
                    None,
                )
            } else {
                self
            };
            next.rejecting_captured_loans(captures, i + 1)
        }
    }

    pub open spec fn rejecting_loan_storage(self, value: RvalueView) -> LowerState {
        match value {
            RvalueView::MakeClosure { captures, .. } => self.rejecting_captured_loans(captures, 0),
            _ => self.rejecting_stored_loans(stored_operands(value), 0),
        }
    }

    pub open spec fn rejecting_stored_guards(self, stored: Seq<(MirValue, Seq<char>)>, i: int) -> LowerState
        decreases stored.len() - i,
    {
        if i < 0 || i >= stored.len() {
            self
        } else {
            let next = if self.is_guarded_operand(stored[i].0) {
                self.error(
                    "MutexGuard cannot be stored in "@ + stored[i].1
                        + "; keep it in a direct lexical binding"@,
                    None,
                )
            } else {
                self
            };
            next.rejecting_stored_guards(stored, i + 1)
        }
    }

    pub open spec fn rejecting_captured_guards(self, captures: Seq<ClosureCaptureView>, i: int) -> LowerState
        decreases captures.len() - i,
    {
        if i < 0 || i >= captures.len() {
            self
        } else {
            let local = captures[i].local;
            let next = if has_key(self.locks, local.0) || self.has_guard_type(local) {
                self.error("MutexGuard cannot be captured by a closure"@, None)
            } else {
                self
            };
            next.rejecting_captured_guards(captures, i + 1)
        }
    }

    /// The option that `try_lock` builds may hold a guard.
    pub open spec fn rejecting_guard_storage(self, destination: LocalId, value: RvalueView) -> LowerState {
        match value {
            RvalueView::MakeClosure { captures, .. } => self.rejecting_captured_guards(captures, 0),
            RvalueView::EnumConstruct { .. } => if self.try_lock_options.contains(destination.0) {
                self
            } else {
                self.rejecting_stored_guards(stored_operands(value), 0)
            },
            _ => self.rejecting_stored_guards(stored_operands(value), 0),
        }
    }

    /// What must not be stored in a field.
    pub open spec fn rejecting_field_guard(self, value: RvalueView) -> LowerState {
        if value matches RvalueView::Move(source) && self.is_guarded_operand(
            MirValue::Local(source),
        ) {
            self.error(
                "MutexGuard cannot be stored in a struct field; keep it in a direct lexical binding"@,
                None,
            )
        } else {
            self
        }
    }

    pub open spec fn rejecting_field_loan(self, value: RvalueView) -> LowerState {
        match value {
            RvalueView::Move(source) => self.rejecting_stored_loan(
                MirValue::Local(source),
                "a struct field"@,
            ),
            _ => self,
        }
    }

    pub open spec fn rejecting_returned_loan(self, value: Option<MirValue>, span: Span) -> LowerState {
        if value matches Some(operand) && self.is_borrowed_operand(operand) {
            self.error(
                "a borrowed reference or callable cannot escape through return"@,
                Some(span),
            )
        } else {
            self
        }
    }

    pub open spec fn rejecting_returned_guard(self, value: Option<MirValue>, span: Span) -> LowerState {
        if value matches Some(operand) && self.is_guarded_operand(operand) {
            self.error(
                "MutexGuard and references borrowed from it cannot escape through return"@,
                Some(span),
            )
        } else {
            self
        }
    }
}

/// The thread-safety types of captures from position `i` on.
pub open spec fn typed_captures(
    safety: SafetyTypingView,
    captures: Seq<(Seq<char>, TypeView)>,
    i: int,
) -> (Seq<CaptureProvenanceView>, SafetyTypingView)
    decreases captures.len() - i,
{
    if i < 0 || i >= captures.len() {
        (Seq::empty(), safety)
    } else {
        let (rest, last) = typed_captures(safety.after_typing(captures[i].1), captures, i + 1);
        (
            seq![
                CaptureProvenanceView { name: captures[i].0, ty: safety.safety_type(captures[i].1) },
            ] + rest,
            last,
        )
    }
}

/// Names and types of a closure's captures.
pub open spec fn capture_types(captures: Seq<ClosureCaptureView>) -> Seq<(Seq<char>, TypeView)> {
    Seq::new(captures.len(), |i: int| (captures[i].name, captures[i].ty))
}

/// Instructions.
impl LowerState {
    /// What a local that gets `value` knows of loans and callables.
    pub open spec fn binding_value(self, local: LocalId, value: RvalueView) -> LowerState {
        match value {
            RvalueView::Ref { base, mutability } => self.registering_loan(
                local,
                base,
                if mutability == Mutability::Mutable {
                    BorrowKind::Mutable
                } else {
                    BorrowKind::Shared
                },
                Span { start: 0, end: 0 },
            ),
            RvalueView::MakeBorrowedClosure { captures, .. } => LowerState {
                borrowed_callables: self.borrowed_callables.insert(local.0),
                ..self
            }.registering_captures(local, captures, 0),
            RvalueView::FunctionRef { name, signature } => {
                let marked = if signature is BorrowedFunction {
                    LowerState {
                        borrowed_callables: self.borrowed_callables.insert(local.0),
                        ..self
                    }
                } else {
                    self
                };
                marked.with_provenance(local, SendProvenanceView::FunctionItem { symbol: name })
            },
            RvalueView::MakeClosure { function, captures, .. } => {
                let (parts, safety) = typed_captures(self.safety, capture_types(captures), 0);
                LowerState { safety, ..self }.with_provenance(
                    local,
                    SendProvenanceView::OwnedClosure { origin: function, captures: parts },
                )
            },
            RvalueView::Move(source) => self.binding_moved(local, source),
            _ => self,
        }
    }

    /// What a local that gets the value of `source` knows of loans and callables.
    pub open spec fn binding_moved(self, local: LocalId, source: LocalId) -> LowerState {
        let checked = if is_fn_mut(self.local_type(source)) {
            self.error(
                "an FnMut callable cannot be assigned or aliased; pass or call it directly"@,
                None,
            )
        } else {
            self
        };
        let carried = checked.with_moved_provenance(source, local);
        let lent = match value_of(carried.arc_loans, source.0) {
            Some(loan) => {
                let reported = if carried.depth_of(local, loan.creation_scope) < loan.creation_scope {
                    carried.error(
                        "an Arc::borrow() reference cannot escape the lexical scope where it was created"@,
                        Some(loan.origin),
                    )
                } else {
                    carried
                };
                LowerState { arc_loans: with_entry(reported.arc_loans, local.0, loan), ..reported }
            },
            None => carried,
        };
        lent.sharing_loans(held_by(lent.loans, source, 0), local, 0)
    }

    /// Locks that come with the value of a local.
    pub open spec fn binding_locks(self, local: LocalId, value: RvalueView) -> LowerState {
        match value {
            RvalueView::Move(source) => self.moving_lock(source, local),
            RvalueView::EnumPayload { base, payload_type, .. } => if payload_type.is_mutex_guard() {
                self.moving_lock(base, local)
            } else {
                self
            },
            _ => self,
        }
    }

    /// Ownership after `source` was moved into `local`. A source that was no
    /// owner makes no owner of its destination.
    pub open spec fn moving_into(self, local: LocalId, source: LocalId) -> LowerState {
        let was_moved = self.state_of(source) == Some(LocalState::Moved);
        let moved = self.with_state(source, LocalState::Moved);
        let passed = if was_moved && !moved.uses_ownership_tracking(source) {
            moved.with_state(local, LocalState::Moved)
        } else {
            moved
        };
        if passed.skips_drop(source) {
            passed.without_drop(local)
        } else {
            passed
        }
    }

    /// The operands from position `i` on have a new owner.
    pub open spec fn moving_operands(self, operands: Seq<MirValue>, i: int) -> LowerState
        decreases operands.len() - i,
    {
        if i < 0 || i >= operands.len() {
            self
        } else {
            let next = match operands[i] {
                MirValue::Local(source) => if self.is_droppable(source) {
                    self.with_state(source, LocalState::Moved)
                } else {
                    self
                },
                _ => self,
            };
            next.moving_operands(operands, i + 1)
        }
    }

    /// The captures from position `i` on that are moved have a new owner.
    pub open spec fn moving_captures(self, captures: Seq<ClosureCaptureView>, i: int) -> LowerState
        decreases captures.len() - i,
    {
        if i < 0 || i >= captures.len() {
            self
        } else {
            let next = if captures[i].transfer == CaptureTransfer::Move {
                self.with_state(captures[i].local, LocalState::Moved)
            } else {
                self
            };
            next.moving_captures(captures, i + 1)
        }
    }

    /// Ownership after an rvalue consumed its operands or gave a snapshot of
    /// what others own.
    pub open spec fn transferring(self, value: RvalueView, local: LocalId) -> LowerState {
        match value {
            RvalueView::VecPush { .. } => self.with_state(local, LocalState::Moved).moving_operands(
                owned_operands(value),
                0,
            ),
            RvalueView::StructLit { .. }
            | RvalueView::EnumConstruct { .. }
            | RvalueView::ArcNew { .. }
            | RvalueView::MutexNew { .. }
            | RvalueView::MapAdd { .. }
            | RvalueView::MapUpdate { .. } => self.moving_operands(owned_operands(value), 0),
            RvalueView::CallIndirect { callee, .. } => self.with_state(callee, LocalState::Moved),
            RvalueView::ThreadHandleIntoRaw { handle } => self.with_state(handle, LocalState::Moved),
            RvalueView::SpscTrySend { value: sent, .. } => self.with_state(sent, LocalState::Moved),
            RvalueView::MakeClosure { captures, .. } => self.moving_captures(captures, 0),
            RvalueView::VecIndex { elem_type, .. } => if has_drop_glue(elem_type) {
                self.without_drop(local)
            } else {
                self
            },
            RvalueView::MapGet { value_type, .. } => if has_drop_glue(value_type) {
                self.without_drop(local)
            } else {
                self
            },
            RvalueView::FieldAccess { .. } => if self.is_droppable(local) {
                self.without_drop(local)
            } else {
                self
            },
            RvalueView::EnumPayload { base, .. } => if self.skips_drop(base) {
                self.without_drop(local)
            } else {
                self
            },
            _ => self,
        }
    }

    /// What an assignment does besides standing in the block.
    pub open spec fn assigning(self, local: LocalId, value: RvalueView) -> LowerState {
        let checked = self.rejecting_arc_storage(value).rejecting_loan_storage(
            value,
        ).rejecting_guard_storage(local, value);
        let bound = checked.without_arc_loan(local).without_loans_of(local).binding_value(
            local,
            value,
        );
        let stored = bound.reassigning(local).binding_locks(local, value).with_state(
            local,
            LocalState::Initialized,
        );
        let moved = match value {
            RvalueView::Move(source) => stored.moving_into(local, source),
            _ => stored,
        };
        moved.transferring(value, local)
    }

    /// What a store into a container does besides standing in the block.
    pub open spec fn storing(self, value: RvalueView, in_field: bool) -> LowerState {
        let checked = self.rejecting_field_guard(value).rejecting_field_loan(value);
        match value {
            RvalueView::Move(source) => {
                let reported = match value_of(checked.arc_loans, source.0) {
                    Some(loan) => if in_field {
                        checked.error(
                            "an Arc::borrow() reference cannot be stored in a struct field; keep it in a direct lexical binding"@,
                            Some(loan.origin),
                        )
                    } else {
                        checked
                    },
                    None => checked,
                };
                reported.with_state(source, LocalState::Moved)
            },
            _ => checked,
        }
    }

    /// The state after an instruction was added to the current block.
    #[verifier::opaque]
    pub open spec fn pushed(self, inst: MirInstView) -> LowerState {
        match inst {
            MirInstView::Assign { local, value } => self.assigning(local, value),
            MirInstView::AssignField { value, .. } => self.storing(value, true),
            MirInstView::AssignIndex { value, .. } => self.storing(value, false),
            _ => self,
        }.emitted(inst)
    }

    pub open spec fn assigned(self, local: LocalId, value: RvalueView) -> LowerState {
        self.pushed(MirInstView::Assign { local, value })
    }
}

} // verus!
