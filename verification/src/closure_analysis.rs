//! Lexical capture and ownership analysis for closure conversion.
//!
//! The pass assigns a stable source binding identity to every parameter and
//! local, resolves free variables through nested lexical scopes, and records
//! the ownership facts needed by MIR closure conversion. It deliberately does
//! not decide cross-thread `Send`/`Sync` policy.

use vstd::prelude::*;

use crate::ast::{
    BinaryOp, Block, CaptureMode, Expr, Function, Ident, InterpSegment, Literal, MatchArm,
    MatchPattern, Param, Stmt, TypeExpr, TypeExprView,
};
use crate::diag::{diagnostics_view, error_view, push_error, Diagnostic, DiagnosticView, Span};
use crate::resolver::{resolve_type_expr_to_type, ResolverContext, ResolverFacts};
use crate::table::{has_key, value_of, with_entry, IdMap};
use crate::text::{
    concat2, concat3, decimal, decimal_text, ends_with, finishes_with, same_text,
    trim_end_matches, without_suffixes,
};
use crate::thread_safety::{
    entering_a_definition_leaves_fewer, is_visiting, unvisited, visits, DefinitionsView, VisitKey,
};
use crate::types::{
    canonical_application, canonical_argument, named_builtin, type_option_view, types_view,
    BorrowedCallableKind, EnumVariant, Mutability, Type, TypeView, ARC_TYPE_CONSTRUCTOR,
    MUTEX_GUARD_TYPE_CONSTRUCTOR, MUTEX_TYPE_CONSTRUCTOR,
};

verus! {

#[derive(Debug, Clone, Copy, PartialEq, Eq, Structural)]
pub enum CaptureOwnership {
    /// The environment stores an independent bitwise value and the source
    /// remains available.
    Copy,
    /// The environment becomes the sole owner and the source is unavailable
    /// immediately after closure construction.
    Move,
}

#[derive(Debug, Clone, Copy, PartialEq, Eq, Structural)]
pub enum ClosureEscapeKind {
    Return,
    Storage,
    ContainerInsertion,
    Transfer,
}

#[derive(Debug, Clone, Copy, PartialEq, Eq, Structural)]
pub struct ClosureEscape {
    pub kind: ClosureEscapeKind,
    pub span: Span,
}

#[derive(Debug, Clone, PartialEq, Eq)]
pub struct ClosureCapture {
    /// Stable source identity. Lowering maps this id to the MIR `LocalId`
    /// allocated for the declaration carrying the same span and name.
    pub binding_id: u32,
    pub name: String,
    pub declaration_span: Span,
    pub first_use_span: Span,
    pub declared_type: Option<TypeExpr>,
    /// Resolved annotation or conservative local expression inference.
    pub resolved_type: Option<Type>,
    pub ownership: CaptureOwnership,
    /// Preserves the user's `move ... -> ...` intent even when a Copy capture
    /// does not invalidate its source.
    pub explicit_move: bool,
    /// True for direct or structurally nested borrowed data. This is exposed
    /// for escape diagnostics and later thread-safety analysis.
    pub transitively_borrowed: bool,
}

#[derive(Debug, Clone, PartialEq, Eq)]
pub struct ClosureInfo {
    pub closure_id: u32,
    pub span: Span,
    pub capture_mode: CaptureMode,
    /// Closure values are consuming callables.
    pub is_fn_once: bool,
    pub captures: Vec<ClosureCapture>,
    pub escapes: Vec<ClosureEscape>,
}

#[derive(Debug, Clone, PartialEq, Eq)]
pub struct ClosureAnalysis {
    pub closures: Vec<ClosureInfo>,
    pub diagnostics: Vec<Diagnostic>,
}

/// The mathematical model of a [`ClosureCapture`].
pub struct ClosureCaptureView {
    pub binding_id: u32,
    pub name: Seq<char>,
    pub declaration_span: Span,
    pub first_use_span: Span,
    pub declared_type: Option<TypeExprView>,
    pub resolved_type: Option<TypeView>,
    pub ownership: CaptureOwnership,
    pub explicit_move: bool,
    pub transitively_borrowed: bool,
}

pub open spec fn type_expr_option_view(ty: Option<TypeExpr>) -> Option<TypeExprView> {
    match ty {
        Some(ty) => Some(ty@),
        None => None,
    }
}

impl View for ClosureCapture {
    type V = ClosureCaptureView;

    open spec fn view(&self) -> ClosureCaptureView {
        ClosureCaptureView {
            binding_id: self.binding_id,
            name: self.name@,
            declaration_span: self.declaration_span,
            first_use_span: self.first_use_span,
            declared_type: type_expr_option_view(self.declared_type),
            resolved_type: type_option_view(self.resolved_type),
            ownership: self.ownership,
            explicit_move: self.explicit_move,
            transitively_borrowed: self.transitively_borrowed,
        }
    }
}

/// The mathematical model of a [`ClosureInfo`].
pub struct ClosureInfoView {
    pub closure_id: u32,
    pub span: Span,
    pub capture_mode: CaptureMode,
    pub is_fn_once: bool,
    pub captures: Seq<ClosureCaptureView>,
    pub escapes: Seq<ClosureEscape>,
}

impl View for ClosureInfo {
    type V = ClosureInfoView;

    open spec fn view(&self) -> ClosureInfoView {
        ClosureInfoView {
            closure_id: self.closure_id,
            span: self.span,
            capture_mode: self.capture_mode,
            is_fn_once: self.is_fn_once,
            captures: closure_captures_view(self.captures@),
            escapes: self.escapes@,
        }
    }
}

pub open spec fn closure_captures_view(captures: Seq<ClosureCapture>) -> Seq<ClosureCaptureView> {
    Seq::new(captures.len(), |i: int| captures[i]@)
}

pub open spec fn closures_view(closures: Seq<ClosureInfo>) -> Seq<ClosureInfoView> {
    Seq::new(closures.len(), |i: int| closures[i]@)
}

/// The mathematical model of a [`ClosureAnalysis`].
pub struct ClosureAnalysisView {
    pub closures: Seq<ClosureInfoView>,
    pub diagnostics: Seq<DiagnosticView>,
}

impl View for ClosureAnalysis {
    type V = ClosureAnalysisView;

    open spec fn view(&self) -> ClosureAnalysisView {
        ClosureAnalysisView {
            closures: closures_view(self.closures@),
            diagnostics: diagnostics_view(self.diagnostics@),
        }
    }
}

/// A declared name of the source.
#[derive(Debug)]
pub struct Binding {
    id: u32,
    name: String,
    declaration_span: Span,
    declared_type: Option<TypeExpr>,
    resolved_type: Option<Type>,
    declaration_order: u32,
    closure_values: Vec<u32>,
}

/// The mathematical model of a [`Binding`]. The closure values are the closures
/// that the binding may hold.
pub struct BindingView {
    pub id: u32,
    pub name: Seq<char>,
    pub declaration_span: Span,
    pub declared_type: Option<TypeExprView>,
    pub resolved_type: Option<TypeView>,
    pub declaration_order: u32,
    pub closure_values: Seq<u32>,
}

impl View for Binding {
    type V = BindingView;

    closed spec fn view(&self) -> BindingView {
        BindingView {
            id: self.id,
            name: self.name@,
            declaration_span: self.declaration_span,
            declared_type: type_expr_option_view(self.declared_type),
            resolved_type: type_option_view(self.resolved_type),
            declaration_order: self.declaration_order,
            closure_values: self.closure_values@,
        }
    }
}

fn clone_type_option(ty: &Option<Type>) -> (copy: Option<Type>)
    ensures
        type_option_view(copy) == type_option_view(*ty),
{
    match ty {
        Some(ty) => Some(ty.clone()),
        None => None,
    }
}

fn clone_type_expr_option(ty: &Option<TypeExpr>) -> (copy: Option<TypeExpr>)
    ensures
        type_expr_option_view(copy) == type_expr_option_view(*ty),
{
    match ty {
        Some(ty) => Some(ty.clone()),
        None => None,
    }
}

fn clone_ids(ids: &Vec<u32>) -> (copy: Vec<u32>)
    ensures
        copy@ == ids@,
{
    let mut copy: Vec<u32> = Vec::new();
    let mut i: usize = 0;
    while i < ids.len()
        invariant
            i <= ids.len(),
            copy@ == ids@.take(i as int),
        decreases ids.len() - i,
    {
        copy.push(ids[i]);
        assert(copy@ =~= ids@.take(i + 1));
        i += 1;
    }
    assert(ids@.take(ids.len() as int) =~= ids@);
    copy
}

impl Clone for Binding {
    fn clone(&self) -> (copy: Binding)
        ensures
            copy@ == self@,
    {
        Binding {
            id: self.id,
            name: self.name.clone(),
            declaration_span: self.declaration_span,
            declared_type: clone_type_expr_option(&self.declared_type),
            resolved_type: clone_type_option(&self.resolved_type),
            declaration_order: self.declaration_order,
            closure_values: clone_ids(&self.closure_values),
        }
    }
}

/// A binding of an outer scope that a closure uses.
#[derive(Debug)]
pub struct CapturedBinding {
    binding: Binding,
    first_use_span: Span,
}

pub struct CapturedBindingView {
    pub binding: BindingView,
    pub first_use_span: Span,
}

impl View for CapturedBinding {
    type V = CapturedBindingView;

    closed spec fn view(&self) -> CapturedBindingView {
        CapturedBindingView { binding: self.binding@, first_use_span: self.first_use_span }
    }
}

impl Clone for CapturedBinding {
    fn clone(&self) -> (copy: CapturedBinding)
        ensures
            copy@ == self@,
    {
        CapturedBinding { binding: self.binding.clone(), first_use_span: self.first_use_span }
    }
}

pub open spec fn bindings_view(bindings: Seq<Binding>) -> Seq<BindingView> {
    Seq::new(bindings.len(), |i: int| bindings[i]@)
}

pub open spec fn scopes_view(scopes: Seq<Vec<Binding>>) -> Seq<Seq<BindingView>> {
    Seq::new(scopes.len(), |i: int| bindings_view(scopes[i]@))
}

pub open spec fn captured_view(captures: Seq<CapturedBinding>) -> Seq<CapturedBindingView> {
    Seq::new(captures.len(), |i: int| captures[i]@)
}

/// The name that a closure is being stored under, with the binding if it exists
/// already.
pub open spec fn owner_view(owner: Option<(String, Option<u32>)>) -> Option<
    (Seq<char>, Option<u32>),
> {
    match owner {
        Some((name, id)) => Some((name@, id)),
        None => None,
    }
}

/// The lexical state of a walk: the scopes of the function or closure that is
/// being walked, what is visible from outside it, and what it captured.
pub struct WalkView {
    pub scopes: Seq<Seq<BindingView>>,
    pub outer_visible: Seq<BindingView>,
    pub captures: Seq<CapturedBindingView>,
    pub recursive_owner: Option<(Seq<char>, Option<u32>)>,
}

/// The last binding called `name` before position `j` of a scope.
pub open spec fn last_named(scope: Seq<BindingView>, name: Seq<char>, j: int) -> Option<int>
    decreases j,
{
    if j <= 0 || j > scope.len() {
        None
    } else if scope[j - 1].name == name {
        Some(j - 1)
    } else {
        last_named(scope, name, j - 1)
    }
}

/// The innermost binding called `name` in the scopes before `s`: its scope and
/// its position there.
pub open spec fn innermost_named(
    scopes: Seq<Seq<BindingView>>,
    name: Seq<char>,
    s: int,
) -> Option<(int, int)>
    decreases s,
{
    if s <= 0 || s > scopes.len() {
        None
    } else {
        match last_named(scopes[s - 1], name, scopes[s - 1].len() as int) {
            Some(j) => Some((s - 1, j)),
            None => innermost_named(scopes, name, s - 1),
        }
    }
}

/// The first binding called `name` from position `i` on.
pub open spec fn first_named(bindings: Seq<BindingView>, name: Seq<char>, i: int) -> Option<int>
    decreases bindings.len() - i,
{
    if i < 0 || i >= bindings.len() {
        None
    } else if bindings[i].name == name {
        Some(i)
    } else {
        first_named(bindings, name, i + 1)
    }
}

/// The visible bindings with one more, which hides an earlier one of its name.
pub open spec fn with_visible(visible: Seq<BindingView>, binding: BindingView) -> Seq<BindingView> {
    match first_named(visible, binding.name, 0) {
        Some(i) => visible.update(i, binding),
        None => visible.push(binding),
    }
}

pub open spec fn with_scope_from(
    visible: Seq<BindingView>,
    scope: Seq<BindingView>,
    i: int,
) -> Seq<BindingView>
    decreases scope.len() - i,
{
    if i < 0 || i >= scope.len() {
        visible
    } else {
        with_scope_from(with_visible(visible, scope[i]), scope, i + 1)
    }
}

pub open spec fn with_scopes_from(
    visible: Seq<BindingView>,
    scopes: Seq<Seq<BindingView>>,
    s: int,
) -> Seq<BindingView>
    decreases scopes.len() - s,
{
    if s < 0 || s >= scopes.len() {
        visible
    } else {
        with_scopes_from(with_scope_from(visible, scopes[s], 0), scopes, s + 1)
    }
}

/// Whether a binding has the given identity.
pub open spec fn has_binding_id(bindings: Seq<BindingView>, id: u32) -> bool {
    exists|i: int| 0 <= i < bindings.len() && (#[trigger] bindings[i]).id == id
}

pub open spec fn has_capture_id(captures: Seq<CapturedBindingView>, id: u32) -> bool {
    exists|i: int| 0 <= i < captures.len() && (#[trigger] captures[i]).binding.id == id
}

impl WalkView {
    pub open spec fn start(
        outer_visible: Seq<BindingView>,
        recursive_owner: Option<(Seq<char>, Option<u32>)>,
    ) -> WalkView {
        WalkView {
            scopes: seq![Seq::empty()],
            outer_visible,
            captures: Seq::empty(),
            recursive_owner,
        }
    }

    pub open spec fn entered(self) -> WalkView {
        WalkView { scopes: self.scopes.push(Seq::empty()), ..self }
    }

    pub open spec fn left(self) -> WalkView {
        WalkView {
            scopes: if self.scopes.len() > 0 {
                self.scopes.drop_last()
            } else {
                self.scopes
            },
            ..self
        }
    }

    pub open spec fn declared(self, binding: BindingView) -> WalkView {
        WalkView {
            scopes: if self.scopes.len() > 0 {
                self.scopes.update(
                    self.scopes.len() - 1,
                    self.scopes.last().push(binding),
                )
            } else {
                self.scopes
            },
            ..self
        }
    }

    pub open spec fn local_position(self, name: Seq<char>) -> Option<(int, int)> {
        innermost_named(self.scopes, name, self.scopes.len() as int)
    }

    /// The binding that a name denotes inside the walked function.
    pub open spec fn local(self, name: Seq<char>) -> Option<BindingView> {
        match self.local_position(name) {
            Some((s, j)) => Some(self.scopes[s][j]),
            None => None,
        }
    }

    /// The binding that a name denotes outside the walked closure.
    pub open spec fn outer(self, name: Seq<char>) -> Option<BindingView> {
        match first_named(self.outer_visible, name, 0) {
            Some(i) => Some(self.outer_visible[i]),
            None => None,
        }
    }

    /// The binding that a name denotes.
    pub open spec fn visible(self, name: Seq<char>) -> Option<BindingView> {
        match self.local(name) {
            Some(binding) => Some(binding),
            None => self.outer(name),
        }
    }

    pub open spec fn all_visible(self) -> Seq<BindingView> {
        with_scopes_from(self.outer_visible, self.scopes, 0)
    }

    pub open spec fn has_local_id(self, id: u32) -> bool {
        exists|s: int|
            0 <= s < self.scopes.len() && has_binding_id(#[trigger] self.scopes[s], id)
    }

    /// The first use of a binding makes it a capture.
    pub open spec fn captured(self, binding: BindingView, span: Span) -> WalkView {
        if has_capture_id(self.captures, binding.id) {
            self
        } else {
            WalkView {
                captures: self.captures.push(
                    CapturedBindingView { binding, first_use_span: span },
                ),
                ..self
            }
        }
    }

    /// What a nested closure captures from outside this closure, this closure
    /// captures too.
    pub open spec fn absorbed(self, capture: CapturedBindingView) -> WalkView {
        if !self.has_local_id(capture.binding.id) && has_binding_id(
            self.outer_visible,
            capture.binding.id,
        ) {
            self.captured(capture.binding, capture.first_use_span)
        } else {
            self
        }
    }

    pub open spec fn absorbed_from(self, captures: Seq<CapturedBindingView>, i: int) -> WalkView
        decreases captures.len() - i,
    {
        if i < 0 || i >= captures.len() {
            self
        } else {
            self.absorbed(captures[i]).absorbed_from(captures, i + 1)
        }
    }
}

/// The list with one more capture, before the first one that was declared later.
pub open spec fn placed_by_order(
    sorted: Seq<CapturedBindingView>,
    capture: CapturedBindingView,
    i: int,
) -> Seq<CapturedBindingView>
    decreases sorted.len() - i,
{
    if i < 0 || i >= sorted.len() {
        sorted.push(capture)
    } else if sorted[i].binding.declaration_order > capture.binding.declaration_order {
        sorted.insert(i, capture)
    } else {
        placed_by_order(sorted, capture, i + 1)
    }
}

/// The captures from position `i` on, placed into a sorted list.
pub open spec fn sorted_from(
    sorted: Seq<CapturedBindingView>,
    captures: Seq<CapturedBindingView>,
    i: int,
) -> Seq<CapturedBindingView>
    decreases captures.len() - i,
{
    if i < 0 || i >= captures.len() {
        sorted
    } else {
        sorted_from(placed_by_order(sorted, captures[i], 0), captures, i + 1)
    }
}

/// The captures in declaration order.
pub open spec fn ordered(captures: Seq<CapturedBindingView>) -> Seq<CapturedBindingView> {
    sorted_from(Seq::empty(), captures, 0)
}

/// A walk over one function or closure body.
pub struct WalkState {
    scopes: Vec<Vec<Binding>>,
    outer_visible: Vec<Binding>,
    captures: Vec<CapturedBinding>,
    recursive_owner: Option<(String, Option<u32>)>,
}

impl View for WalkState {
    type V = WalkView;

    closed spec fn view(&self) -> WalkView {
        WalkView {
            scopes: scopes_view(self.scopes@),
            outer_visible: bindings_view(self.outer_visible@),
            captures: captured_view(self.captures@),
            recursive_owner: owner_view(self.recursive_owner),
        }
    }
}

fn find_last(scope: &Vec<Binding>, name: &str) -> (position: Option<usize>)
    ensures
        match position {
            Some(p) => p < scope.len() && last_named(
                bindings_view(scope@),
                name@,
                scope.len() as int,
            ) == Some(p as int),
            None => last_named(bindings_view(scope@), name@, scope.len() as int) is None,
        },
{
    let ghost views = bindings_view(scope@);
    let mut j: usize = scope.len();
    while j > 0
        invariant
            j <= scope.len(),
            views == bindings_view(scope@),
            last_named(views, name@, j as int) == last_named(views, name@, scope.len() as int),
        decreases j,
    {
        assert(views[j - 1] == scope[j - 1]@);
        if same_text(scope[j - 1].name.as_str(), name) {
            return Some(j - 1);
        }
        j -= 1;
    }
    None
}

fn find_first(bindings: &Vec<Binding>, name: &str) -> (position: Option<usize>)
    ensures
        match position {
            Some(p) => p < bindings.len() && first_named(bindings_view(bindings@), name@, 0)
                == Some(p as int),
            None => first_named(bindings_view(bindings@), name@, 0) is None,
        },
{
    let ghost views = bindings_view(bindings@);
    let mut i: usize = 0;
    while i < bindings.len()
        invariant
            i <= bindings.len(),
            views == bindings_view(bindings@),
            first_named(views, name@, i as int) == first_named(views, name@, 0),
        decreases bindings.len() - i,
    {
        assert(views[i as int] == bindings[i as int]@);
        if same_text(bindings[i].name.as_str(), name) {
            return Some(i);
        }
        i += 1;
    }
    None
}

fn contains_binding_id(bindings: &Vec<Binding>, id: u32) -> (found: bool)
    ensures
        found == has_binding_id(bindings_view(bindings@), id),
{
    let ghost views = bindings_view(bindings@);
    let mut i: usize = 0;
    while i < bindings.len()
        invariant
            i <= bindings.len(),
            views == bindings_view(bindings@),
            forall|j: int| 0 <= j < i ==> (#[trigger] views[j]).id != id,
        decreases bindings.len() - i,
    {
        assert(views[i as int] == bindings[i as int]@);
        if bindings[i].id == id {
            return true;
        }
        i += 1;
    }
    false
}

fn clone_bindings(bindings: &Vec<Binding>) -> (copy: Vec<Binding>)
    ensures
        bindings_view(copy@) == bindings_view(bindings@),
{
    let mut copy: Vec<Binding> = Vec::new();
    let mut i: usize = 0;
    while i < bindings.len()
        invariant
            i <= bindings.len(),
            copy.len() == i,
            forall|j: int| 0 <= j < i ==> (#[trigger] copy[j])@ == bindings[j]@,
        decreases bindings.len() - i,
    {
        copy.push(bindings[i].clone());
        i += 1;
    }
    assert(bindings_view(copy@) =~= bindings_view(bindings@));
    copy
}

fn show_binding(visible: &mut Vec<Binding>, binding: &Binding)
    ensures
        bindings_view(final(visible)@) == with_visible(bindings_view(old(visible)@), binding@),
{
    match find_first(visible, binding.name.as_str()) {
        Some(p) => {
            visible.set(p, binding.clone());
        },
        None => {
            visible.push(binding.clone());
        },
    }
    assert(bindings_view(visible@) =~= with_visible(bindings_view(old(visible)@), binding@));
}

impl WalkState {
    fn top_level() -> (state: WalkState)
        ensures
            state@ == WalkView::start(Seq::empty(), None),
    {
        let outside: Vec<Binding> = Vec::new();
        assert(bindings_view(outside@) =~= Seq::empty());
        WalkState::for_closure(outside, None)
    }

    fn for_closure(
        outer_visible: Vec<Binding>,
        recursive_owner: Option<(String, Option<u32>)>,
    ) -> (state: WalkState)
        ensures
            state@ == WalkView::start(bindings_view(outer_visible@), owner_view(recursive_owner)),
    {
        let scope: Vec<Binding> = Vec::new();
        let mut scopes: Vec<Vec<Binding>> = Vec::new();
        scopes.push(scope);
        let state = WalkState { scopes, outer_visible, captures: Vec::new(), recursive_owner };
        assert(bindings_view(scope@) =~= Seq::empty());
        assert(state@.scopes =~= seq![Seq::empty()]);
        assert(state@.captures =~= Seq::empty());
        state
    }

    fn push_scope(&mut self)
        ensures
            final(self)@ == old(self)@.entered(),
    {
        let scope: Vec<Binding> = Vec::new();
        assert(bindings_view(scope@) =~= Seq::empty());
        self.scopes.push(scope);
        assert(self@.scopes =~= old(self)@.entered().scopes);
    }

    fn pop_scope(&mut self)
        ensures
            final(self)@ == old(self)@.left(),
    {
        let _ = self.scopes.pop();
        assert(self@.scopes =~= old(self)@.left().scopes);
    }

    fn declare(&mut self, binding: Binding)
        ensures
            final(self)@ == old(self)@.declared(binding@),
    {
        match self.scopes.pop() {
            Some(mut scope) => {
                let ghost before = scope@;
                scope.push(binding);
                assert(bindings_view(scope@) =~= bindings_view(before).push(binding@));
                self.scopes.push(scope);
            },
            None => {},
        }
        assert(self@.scopes =~= old(self)@.declared(binding@).scopes);
    }

    fn local_position(&self, name: &str) -> (position: Option<(usize, usize)>)
        ensures
            match position {
                Some((s, j)) => s < self.scopes.len() && j < self.scopes@[s as int].len()
                    && self@.local_position(name@) == Some((s as int, j as int)),
                None => self@.local_position(name@) is None,
            },
    {
        let ghost views = self@.scopes;
        let mut s: usize = self.scopes.len();
        while s > 0
            invariant
                s <= self.scopes.len(),
                views == self@.scopes,
                innermost_named(views, name@, s as int) == self@.local_position(name@),
            decreases s,
        {
            assert(views[s - 1] == bindings_view(self.scopes@[s - 1]@));
            match find_last(&self.scopes[s - 1], name) {
                Some(j) => {
                    return Some((s - 1, j));
                },
                None => {},
            }
            s -= 1;
        }
        None
    }

    fn local_binding(&self, name: &str) -> (binding: Option<&Binding>)
        ensures
            match binding {
                Some(binding) => self@.local(name@) == Some(binding@),
                None => self@.local(name@) is None,
            },
    {
        match self.local_position(name) {
            Some((s, j)) => Some(&self.scopes[s][j]),
            None => None,
        }
    }

    fn outer_binding(&self, name: &str) -> (binding: Option<&Binding>)
        ensures
            match binding {
                Some(binding) => self@.outer(name@) == Some(binding@),
                None => self@.outer(name@) is None,
            },
    {
        match find_first(&self.outer_visible, name) {
            Some(i) => Some(&self.outer_visible[i]),
            None => None,
        }
    }

    fn visible_binding(&self, name: &str) -> (binding: Option<&Binding>)
        ensures
            match binding {
                Some(binding) => self@.visible(name@) == Some(binding@),
                None => self@.visible(name@) is None,
            },
    {
        match self.local_binding(name) {
            Some(binding) => Some(binding),
            None => self.outer_binding(name),
        }
    }

    fn contains_local_id(&self, id: u32) -> (found: bool)
        ensures
            found == self@.has_local_id(id),
    {
        let ghost views = self@.scopes;
        let mut s: usize = 0;
        while s < self.scopes.len()
            invariant
                s <= self.scopes.len(),
                views == self@.scopes,
                forall|k: int| 0 <= k < s ==> !has_binding_id(#[trigger] views[k], id),
            decreases self.scopes.len() - s,
        {
            assert(views[s as int] == bindings_view(self.scopes@[s as int]@));
            if contains_binding_id(&self.scopes[s], id) {
                return true;
            }
            s += 1;
        }
        false
    }

    fn visible_bindings(&self) -> (visible: Vec<Binding>)
        ensures
            bindings_view(visible@) == self@.all_visible(),
    {
        let ghost views = self@.scopes;
        let mut visible = clone_bindings(&self.outer_visible);
        let mut s: usize = 0;
        while s < self.scopes.len()
            invariant
                s <= self.scopes.len(),
                views == self@.scopes,
                with_scopes_from(bindings_view(visible@), views, s as int) == self@.all_visible(),
            decreases self.scopes.len() - s,
        {
            let scope = &self.scopes[s];
            let ghost before = bindings_view(visible@);
            let ghost inner = bindings_view(scope@);
            assert(views[s as int] == inner);
            let mut i: usize = 0;
            while i < scope.len()
                invariant
                    i <= scope.len(),
                    inner == bindings_view(scope@),
                    with_scope_from(bindings_view(visible@), inner, i as int) == with_scope_from(
                        before,
                        inner,
                        0,
                    ),
                decreases scope.len() - i,
            {
                assert(inner[i as int] == scope[i as int]@);
                show_binding(&mut visible, &scope[i]);
                i += 1;
            }
            s += 1;
        }
        visible
    }

    fn contains_capture_id(&self, id: u32) -> (found: bool)
        ensures
            found == has_capture_id(self@.captures, id),
    {
        let ghost views = self@.captures;
        let mut i: usize = 0;
        while i < self.captures.len()
            invariant
                i <= self.captures.len(),
                views == self@.captures,
                forall|j: int| 0 <= j < i ==> (#[trigger] views[j]).binding.id != id,
            decreases self.captures.len() - i,
        {
            assert(views[i as int] == self.captures@[i as int]@);
            if self.captures[i].binding.id == id {
                return true;
            }
            i += 1;
        }
        false
    }

    fn capture(&mut self, binding: Binding, span: Span)
        ensures
            final(self)@ == old(self)@.captured(binding@, span),
    {
        if !self.contains_capture_id(binding.id) {
            self.captures.push(CapturedBinding { binding, first_use_span: span });
            assert(self@.captures =~= old(self)@.captured(binding@, span).captures);
        }
    }

    fn absorb_nested_capture(&mut self, capture: &CapturedBinding)
        ensures
            final(self)@ == old(self)@.absorbed(capture@),
    {
        if self.contains_local_id(capture.binding.id) {
            return ;
        }
        if contains_binding_id(&self.outer_visible, capture.binding.id) {
            self.capture(capture.binding.clone(), capture.first_use_span);
        }
    }

    fn ordered_captures(&self) -> (sorted: Vec<CapturedBinding>)
        ensures
            captured_view(sorted@) == ordered(self@.captures),
    {
        let ghost views = self@.captures;
        let mut sorted: Vec<CapturedBinding> = Vec::new();
        assert(captured_view(sorted@) =~= Seq::empty());
        let mut i: usize = 0;
        while i < self.captures.len()
            invariant
                i <= self.captures.len(),
                views == self@.captures,
                sorted_from(captured_view(sorted@), views, i as int) == ordered(views),
            decreases self.captures.len() - i,
        {
            assert(views[i as int] == self.captures@[i as int]@);
            place_capture(&mut sorted, self.captures[i].clone());
            i += 1;
        }
        sorted
    }
}

fn place_capture(sorted: &mut Vec<CapturedBinding>, capture: CapturedBinding)
    ensures
        captured_view(final(sorted)@) == placed_by_order(
            captured_view(old(sorted)@),
            capture@,
            0,
        ),
{
    let ghost views = captured_view(sorted@);
    let mut i: usize = 0;
    while i < sorted.len()
        invariant
            i <= sorted.len(),
            sorted@ == old(sorted)@,
            views == captured_view(sorted@),
            placed_by_order(views, capture@, i as int) == placed_by_order(views, capture@, 0),
        decreases sorted.len() - i,
    {
        assert(views[i as int] == sorted[i as int]@);
        if sorted[i].binding.declaration_order > capture.binding.declaration_order {
            sorted.insert(i, capture);
            assert(captured_view(sorted@) =~= views.insert(i as int, capture@));
            return ;
        }
        i += 1;
    }
    sorted.push(capture);
    assert(captured_view(sorted@) =~= views.push(capture@));
}

/// Whether values of the type are copied bit by bit.
pub open spec fn copyable(ty: TypeView) -> bool
    decreases ty,
{
    match ty {
        TypeView::I8 | TypeView::I32 | TypeView::I64 | TypeView::U8 | TypeView::U32
        | TypeView::U64 | TypeView::Usize | TypeView::F32 | TypeView::F64 | TypeView::Bool
        | TypeView::Char | TypeView::Str | TypeView::Ref(..) | TypeView::RawPtr(_) => true,
        TypeView::Array(element, _) => copyable(*element),
        TypeView::Tuple(elements) => all_copyable(elements),
        _ => false,
    }
}

pub open spec fn all_copyable(types: Seq<TypeView>) -> bool
    decreases types,
{
    forall|i: int| 0 <= i < types.len() ==> copyable(#[trigger] types[i])
}

fn type_is_copy(ty: &Type) -> (copy: bool)
    ensures
        copy == copyable(ty@),
    decreases ty,
{
    match ty {
        Type::I8 | Type::I32 | Type::I64 | Type::U8 | Type::U32 | Type::U64 | Type::Usize
        | Type::F32 | Type::F64 | Type::Bool | Type::Char | Type::Str | Type::Ref(..)
        | Type::RawPtr(_) => true,
        Type::Array(element, _) => type_is_copy(element),
        Type::Tuple(elements) => types_are_copy(elements),
        _ => false,
    }
}

fn types_are_copy(types: &Vec<Type>) -> (copy: bool)
    ensures
        copy == all_copyable(types_view(types@)),
    decreases types,
{
    let ghost views = types_view(types@);
    let mut i: usize = 0;
    while i < types.len()
        invariant
            i <= types.len(),
            views == types_view(types@),
            forall|j: int| 0 <= j < i ==> copyable(#[trigger] views[j]),
        decreases types.len() - i,
    {
        assert(views[i as int] == types[i as int]@);
        if !type_is_copy(&types[i]) {
            return false;
        }
        i += 1;
    }
    true
}

/// The source-like text of a type in diagnostics.
pub open spec fn label_text(ty: TypeView) -> Seq<char>
    decreases ty, 0nat,
{
    match ty {
        TypeView::I8 => "i8"@,
        TypeView::I32 => "i32"@,
        TypeView::I64 => "i64"@,
        TypeView::U8 => "u8"@,
        TypeView::U32 => "u32"@,
        TypeView::U64 => "u64"@,
        TypeView::Usize => "usize"@,
        TypeView::F32 => "f32"@,
        TypeView::F64 => "f64"@,
        TypeView::Bool => "bool"@,
        TypeView::Char => "char"@,
        TypeView::Str => "str"@,
        TypeView::String => "String"@,
        TypeView::Void => "()"@,
        TypeView::Named(name) => name,
        TypeView::Enum(name) => name,
        TypeView::Param(name) => name,
        TypeView::App { base, args } => labels_text(base + "<"@, args, 0) + ">"@,
        TypeView::Ref(inner, _) => "&"@ + label_text(*inner),
        TypeView::Array(inner, size) => "["@ + label_text(*inner) + "; "@ + decimal_text(
            size as nat,
        ) + "]"@,
        TypeView::Own(inner) => "Own<"@ + label_text(*inner) + ">"@,
        TypeView::RawPtr(inner) => "RawPtr<"@ + label_text(*inner) + ">"@,
        TypeView::Shared(inner) => "Shared<"@ + label_text(*inner) + ">"@,
        TypeView::Atomic(scalar) => scalar.name(),
        TypeView::Function { params, ret } => labels_text("FnOnce<("@, params, 0) + "), "@
            + label_text(*ret) + ">"@,
        TypeView::BorrowedFunction { kind, params, ret } => labels_text(
            (match kind {
                BorrowedCallableKind::Fn => "Fn"@,
                BorrowedCallableKind::FnMut => "FnMut"@,
            }) + "<("@,
            params,
            0,
        ) + "), "@ + label_text(*ret) + ">"@,
        TypeView::Tuple(elements) => labels_text("("@, elements, 0) + ")"@,
    }
}

/// The texts of the types from position `i` on, separated by commas, after
/// `text`.
pub open spec fn labels_text(text: Seq<char>, types: Seq<TypeView>, i: int) -> Seq<char>
    decreases types, types.len() - i,
{
    if i < 0 || i >= types.len() {
        text
    } else {
        let separated = if i == 0 {
            text
        } else {
            text + ", "@
        };
        labels_text(separated + label_text(types[i]), types, i + 1)
    }
}

fn type_label(ty: &Type) -> (label: String)
    ensures
        label@ == label_text(ty@),
    decreases ty, 0nat,
{
    match ty {
        Type::I8 => "i8".to_owned(),
        Type::I32 => "i32".to_owned(),
        Type::I64 => "i64".to_owned(),
        Type::U8 => "u8".to_owned(),
        Type::U32 => "u32".to_owned(),
        Type::U64 => "u64".to_owned(),
        Type::Usize => "usize".to_owned(),
        Type::F32 => "f32".to_owned(),
        Type::F64 => "f64".to_owned(),
        Type::Bool => "bool".to_owned(),
        Type::Char => "char".to_owned(),
        Type::Str => "str".to_owned(),
        Type::String => "String".to_owned(),
        Type::Void => "()".to_owned(),
        Type::Named(name) => name.clone(),
        Type::Enum(name) => name.clone(),
        Type::Param(name) => name.clone(),
        Type::App { base, args } => {
            let mut label = append_labels(concat2(base.as_str(), "<"), args);
            label.append(">");
            label
        },
        Type::Ref(inner, _) => concat2("&", type_label(inner).as_str()),
        Type::Array(inner, size) => {
            let mut label = concat3("[", type_label(inner).as_str(), "; ");
            label.append(decimal(*size as u64).as_str());
            label.append("]");
            label
        },
        Type::Own(inner) => concat3("Own<", type_label(inner).as_str(), ">"),
        Type::RawPtr(inner) => concat3("RawPtr<", type_label(inner).as_str(), ">"),
        Type::Shared(inner) => concat3("Shared<", type_label(inner).as_str(), ">"),
        Type::Atomic(scalar) => scalar.source_name().to_owned(),
        Type::Function { params, ret } => {
            let mut label = append_labels("FnOnce<(".to_owned(), params);
            label.append("), ");
            label.append(type_label(ret).as_str());
            label.append(">");
            label
        },
        Type::BorrowedFunction { kind, params, ret } => {
            let capability = match kind {
                BorrowedCallableKind::Fn => "Fn",
                BorrowedCallableKind::FnMut => "FnMut",
            };
            let mut label = append_labels(concat2(capability, "<("), params);
            label.append("), ");
            label.append(type_label(ret).as_str());
            label.append(">");
            label
        },
        Type::Tuple(elements) => {
            let mut label = append_labels("(".to_owned(), elements);
            label.append(")");
            label
        },
    }
}

fn append_labels(start: String, types: &Vec<Type>) -> (text: String)
    ensures
        text@ == labels_text(start@, types_view(types@), 0),
    decreases types, 0nat,
{
    let ghost views = types_view(types@);
    let mut text = start;
    let mut i: usize = 0;
    while i < types.len()
        invariant
            i <= types.len(),
            views == types_view(types@),
            labels_text(text@, views, i as int) == labels_text(start@, views, 0),
        decreases types.len() - i,
    {
        assert(views[i as int] == types[i as int]@);
        if i > 0 {
            text.append(", ");
        }
        text.append(type_label(&types[i]).as_str());
        i += 1;
    }
    text
}

pub open spec fn definitions(resolver: ResolverFacts) -> DefinitionsView {
    DefinitionsView { structs: resolver.struct_types, enums: resolver.enum_types }
}

/// Whether borrowed data is part of the type, directly or in what a name in it
/// declares.
pub open spec fn holds_borrowed(
    resolver: ResolverFacts,
    ty: TypeView,
    visiting: Seq<(bool, Seq<char>)>,
) -> bool
    decreases unvisited(definitions(resolver), visiting), 1nat, ty,
{
    match ty {
        TypeView::Str | TypeView::Ref(..) | TypeView::BorrowedFunction { .. } => true,
        TypeView::Array(inner, _) => holds_borrowed(resolver, *inner, visiting),
        TypeView::Own(inner) => holds_borrowed(resolver, *inner, visiting),
        TypeView::RawPtr(inner) => holds_borrowed(resolver, *inner, visiting),
        TypeView::Shared(inner) => holds_borrowed(resolver, *inner, visiting),
        TypeView::App { base, args } => any_holds_borrowed(resolver, args, visiting)
            || struct_holds_borrowed(resolver, base, visiting) || enum_holds_borrowed(
            resolver,
            base,
            visiting,
        ),
        TypeView::Tuple(args) => any_holds_borrowed(resolver, args, visiting),
        TypeView::Function { params, ret } => any_holds_borrowed(resolver, params, visiting)
            || holds_borrowed(resolver, *ret, visiting),
        TypeView::Named(name) => struct_holds_borrowed(resolver, name, visiting)
            || enum_holds_borrowed(resolver, name, visiting),
        TypeView::Enum(name) => enum_holds_borrowed(resolver, name, visiting),
        _ => false,
    }
}

pub open spec fn any_holds_borrowed(
    resolver: ResolverFacts,
    types: Seq<TypeView>,
    visiting: Seq<(bool, Seq<char>)>,
) -> bool
    decreases unvisited(definitions(resolver), visiting), 1nat, types,
{
    exists|i: int|
        0 <= i < types.len() && holds_borrowed(resolver, #[trigger] types[i], visiting)
}

/// Whether a field of the struct called `name` holds borrowed data. A struct
/// that is already under examination adds nothing.
pub open spec fn struct_holds_borrowed(
    resolver: ResolverFacts,
    name: Seq<char>,
    visiting: Seq<(bool, Seq<char>)>,
) -> bool
    decreases unvisited(definitions(resolver), visiting), 0nat, name,
{
    if visiting.contains((false, name)) {
        false
    } else {
        proof {
            entering_a_definition_leaves_fewer(definitions(resolver), visiting, (false, name));
        }
        match value_of(resolver.struct_types, name) {
            Some(definition) => fields_hold_borrowed(
                resolver,
                definition.fields@,
                visiting.push((false, name)),
            ),
            None => false,
        }
    }
}

pub open spec fn fields_hold_borrowed(
    resolver: ResolverFacts,
    fields: Seq<(String, Type)>,
    visiting: Seq<(bool, Seq<char>)>,
) -> bool
    decreases unvisited(definitions(resolver), visiting), 2nat, fields,
{
    exists|i: int|
        0 <= i < fields.len() && holds_borrowed(resolver, (#[trigger] fields[i]).1@, visiting)
}

/// Whether a payload of the enum called `name` holds borrowed data. An enum that
/// is already under examination adds nothing.
pub open spec fn enum_holds_borrowed(
    resolver: ResolverFacts,
    name: Seq<char>,
    visiting: Seq<(bool, Seq<char>)>,
) -> bool
    decreases unvisited(definitions(resolver), visiting), 0nat, name,
{
    if visiting.contains((true, name)) {
        false
    } else {
        proof {
            entering_a_definition_leaves_fewer(definitions(resolver), visiting, (true, name));
        }
        match value_of(resolver.enum_types, name) {
            Some(definition) => payloads_hold_borrowed(
                resolver,
                definition.variants@,
                visiting.push((true, name)),
            ),
            None => false,
        }
    }
}

pub open spec fn payloads_hold_borrowed(
    resolver: ResolverFacts,
    variants: Seq<EnumVariant>,
    visiting: Seq<(bool, Seq<char>)>,
) -> bool
    decreases unvisited(definitions(resolver), visiting), 2nat, variants,
{
    exists|i: int|
        0 <= i < variants.len() && payload_holds_borrowed(
            resolver,
            #[trigger] variants[i],
            visiting,
        )
}

pub open spec fn payload_holds_borrowed(
    resolver: ResolverFacts,
    variant: EnumVariant,
    visiting: Seq<(bool, Seq<char>)>,
) -> bool
    decreases unvisited(definitions(resolver), visiting), 2nat, variant,
{
    match variant.payload {
        Some(payload) => holds_borrowed(resolver, payload@, visiting),
        None => false,
    }
}

fn type_is_transitively_borrowed(
    resolver: &ResolverContext,
    ty: &Type,
    visiting: &mut Vec<VisitKey>,
) -> (borrowed: bool)
    ensures
        final(visiting)@ == old(visiting)@,
        borrowed == holds_borrowed(resolver@, ty@, visits(old(visiting)@)),
    decreases unvisited(definitions(resolver@), visits(old(visiting)@)), 1nat, ty,
{
    match ty {
        Type::Str | Type::Ref(..) | Type::BorrowedFunction { .. } => true,
        Type::Array(inner, _) => type_is_transitively_borrowed(resolver, inner, visiting),
        Type::Own(inner) => type_is_transitively_borrowed(resolver, inner, visiting),
        Type::RawPtr(inner) => type_is_transitively_borrowed(resolver, inner, visiting),
        Type::Shared(inner) => type_is_transitively_borrowed(resolver, inner, visiting),
        Type::App { base, args } => any_is_transitively_borrowed(resolver, args, visiting)
            || struct_is_transitively_borrowed(resolver, base, visiting)
            || enum_is_transitively_borrowed(resolver, base, visiting),
        Type::Tuple(args) => any_is_transitively_borrowed(resolver, args, visiting),
        Type::Function { params, ret } => any_is_transitively_borrowed(resolver, params, visiting)
            || type_is_transitively_borrowed(resolver, ret, visiting),
        Type::Named(name) => struct_is_transitively_borrowed(resolver, name, visiting)
            || enum_is_transitively_borrowed(resolver, name, visiting),
        Type::Enum(name) => enum_is_transitively_borrowed(resolver, name, visiting),
        _ => false,
    }
}

fn struct_is_transitively_borrowed(
    resolver: &ResolverContext,
    name: &String,
    visiting: &mut Vec<VisitKey>,
) -> (borrowed: bool)
    ensures
        final(visiting)@ == old(visiting)@,
        borrowed == struct_holds_borrowed(resolver@, name@, visits(old(visiting)@)),
    decreases unvisited(definitions(resolver@), visits(old(visiting)@)), 0nat, name@,
{
    if is_visiting(visiting, false, name.as_str()) {
        return false;
    }
    let definition = match resolver.struct_types.get(name.as_str()) {
        Some(definition) => definition,
        None => {
            return false;
        },
    };
    let ghost before = visits(visiting@);
    visiting.push(VisitKey { is_enum: false, name: name.clone() });
    let ghost inside = visits(visiting@);
    proof {
        assert(inside =~= before.push((false, name@)));
        entering_a_definition_leaves_fewer(definitions(resolver@), before, (false, name@));
    }
    let ghost entered = visiting@;
    let mut borrowed = false;
    let mut i: usize = 0;
    while i < definition.fields.len() && !borrowed
        invariant
            i <= definition.fields.len(),
            visiting@ == entered,
            inside == visits(entered),
            unvisited(definitions(resolver@), inside) < unvisited(
                definitions(resolver@),
                visits(old(visiting)@),
            ),
            borrowed ==> fields_hold_borrowed(resolver@, definition.fields@, inside),
            !borrowed ==> forall|j: int|
                0 <= j < i ==> !holds_borrowed(
                    resolver@,
                    (#[trigger] definition.fields@[j]).1@,
                    inside,
                ),
        decreases definition.fields.len() - i,
    {
        borrowed = type_is_transitively_borrowed(resolver, &definition.fields[i].1, visiting);
        i += 1;
    }
    visiting.pop();
    assert(visiting@ =~= old(visiting)@);
    assert(borrowed == fields_hold_borrowed(resolver@, definition.fields@, inside));
    borrowed
}

fn enum_is_transitively_borrowed(
    resolver: &ResolverContext,
    name: &String,
    visiting: &mut Vec<VisitKey>,
) -> (borrowed: bool)
    ensures
        final(visiting)@ == old(visiting)@,
        borrowed == enum_holds_borrowed(resolver@, name@, visits(old(visiting)@)),
    decreases unvisited(definitions(resolver@), visits(old(visiting)@)), 0nat, name@,
{
    if is_visiting(visiting, true, name.as_str()) {
        return false;
    }
    let definition = match resolver.enum_types.get(name.as_str()) {
        Some(definition) => definition,
        None => {
            return false;
        },
    };
    let ghost before = visits(visiting@);
    visiting.push(VisitKey { is_enum: true, name: name.clone() });
    let ghost inside = visits(visiting@);
    proof {
        assert(inside =~= before.push((true, name@)));
        entering_a_definition_leaves_fewer(definitions(resolver@), before, (true, name@));
    }
    let ghost entered = visiting@;
    let mut borrowed = false;
    let mut i: usize = 0;
    while i < definition.variants.len() && !borrowed
        invariant
            i <= definition.variants.len(),
            visiting@ == entered,
            inside == visits(entered),
            unvisited(definitions(resolver@), inside) < unvisited(
                definitions(resolver@),
                visits(old(visiting)@),
            ),
            borrowed ==> payloads_hold_borrowed(resolver@, definition.variants@, inside),
            !borrowed ==> forall|j: int|
                0 <= j < i ==> !payload_holds_borrowed(
                    resolver@,
                    #[trigger] definition.variants@[j],
                    inside,
                ),
        decreases definition.variants.len() - i,
    {
        borrowed = match &definition.variants[i].payload {
            Some(payload) => type_is_transitively_borrowed(resolver, payload, visiting),
            None => false,
        };
        assert(borrowed == payload_holds_borrowed(
            resolver@,
            definition.variants@[i as int],
            inside,
        ));
        i += 1;
    }
    visiting.pop();
    assert(visiting@ =~= old(visiting)@);
    assert(borrowed == payloads_hold_borrowed(resolver@, definition.variants@, inside));
    borrowed
}

fn any_is_transitively_borrowed(
    resolver: &ResolverContext,
    types: &Vec<Type>,
    visiting: &mut Vec<VisitKey>,
) -> (borrowed: bool)
    ensures
        final(visiting)@ == old(visiting)@,
        borrowed == any_holds_borrowed(resolver@, types_view(types@), visits(old(visiting)@)),
    decreases unvisited(definitions(resolver@), visits(old(visiting)@)), 1nat, types,
{
    let ghost views = types_view(types@);
    let ghost entered = visits(visiting@);
    let mut i: usize = 0;
    while i < types.len()
        invariant
            i <= types.len(),
            visiting@ == old(visiting)@,
            entered == visits(old(visiting)@),
            views == types_view(types@),
            forall|j: int| 0 <= j < i ==> !holds_borrowed(resolver@, #[trigger] views[j], entered),
        decreases types.len() - i,
    {
        assert(views[i as int] == types[i as int]@);
        if type_is_transitively_borrowed(resolver, &types[i], visiting) {
            return true;
        }
        i += 1;
    }
    false
}

pub open spec fn escape_text(kind: ClosureEscapeKind) -> Seq<char> {
    match kind {
        ClosureEscapeKind::Return => "return"@,
        ClosureEscapeKind::Storage => "storage"@,
        ClosureEscapeKind::ContainerInsertion => "container insertion"@,
        ClosureEscapeKind::Transfer => "a transfer site"@,
    }
}

fn escape_label(kind: ClosureEscapeKind) -> (label: &'static str)
    ensures
        label@ == escape_text(kind),
{
    match kind {
        ClosureEscapeKind::Return => "return",
        ClosureEscapeKind::Storage => "storage",
        ClosureEscapeKind::ContainerInsertion => "container insertion",
        ClosureEscapeKind::Transfer => "a transfer site",
    }
}

/// What indexing or iterating over a value of the type gives.
pub open spec fn element_of(ty: TypeView) -> Option<TypeView> {
    match ty {
        TypeView::Array(element, _) => Some(*element),
        TypeView::App { base, args } => if base == "Vec"@ && args.len() == 1 {
            Some(args[0])
        } else {
            None
        },
        _ => None,
    }
}

fn element_type(ty: &Type) -> (element: Option<Type>)
    ensures
        type_option_view(element) == element_of(ty@),
{
    match ty {
        Type::Array(element, _) => {
            let inner: &Type = element;
            assert(*(ty@->Array_0) == inner@);
            Some(inner.clone())
        },
        Type::App { base, args } => {
            assert(types_view(args@).len() == args@.len());
            if same_text(base.as_str(), "Vec") && args.len() == 1 {
                assert(types_view(args@)[0] == args@[0]@);
                Some(args[0].clone())
            } else {
                None
            }
        },
        _ => None,
    }
}

/// Whether `Arc` denotes the standard library's type.
pub open spec fn arc_is_canonical(resolver: ResolverFacts) -> bool {
    resolver.names_struct("Arc"@, "std/sync"@, "Arc"@)
}

/// Whether `Mutex` denotes the standard library's type.
pub open spec fn mutex_is_canonical(resolver: ResolverFacts) -> bool {
    resolver.names_struct("Mutex"@, "std/sync"@, "Mutex"@)
}

pub open spec fn arc_over(ty: Option<TypeView>) -> Option<TypeView> {
    match ty {
        Some(ty) => Some(canonical_application(ARC_TYPE_CONSTRUCTOR@, ty)),
        None => None,
    }
}

pub open spec fn mutex_over(ty: Option<TypeView>) -> Option<TypeView> {
    match ty {
        Some(ty) => Some(canonical_application(MUTEX_TYPE_CONSTRUCTOR@, ty)),
        None => None,
    }
}

pub open spec fn own_over(ty: Option<TypeView>) -> Option<TypeView> {
    match ty {
        Some(ty) => Some(TypeView::Own(Box::new(ty))),
        None => None,
    }
}

pub open spec fn shared_over(ty: Option<TypeView>) -> Option<TypeView> {
    match ty {
        Some(ty) => Some(TypeView::Shared(Box::new(ty))),
        None => None,
    }
}

/// The atomic type of a source name.
pub open spec fn atomic_named(name: Seq<char>) -> Option<TypeView> {
    match named_builtin(name) {
        Some(TypeView::Atomic(scalar)) => Some(TypeView::Atomic(scalar)),
        _ => None,
    }
}

/// The type that a call of a constructor with a path name gives.
pub open spec fn path_constructor_type(
    resolver: ResolverFacts,
    name: Seq<char>,
    argument: Option<TypeView>,
) -> Option<TypeView> {
    if name == "Arc::new"@ && arc_is_canonical(resolver) {
        arc_over(argument)
    } else if name == "Mutex::new"@ && mutex_is_canonical(resolver) {
        mutex_over(argument)
    } else if name == "Own::new"@ {
        own_over(argument)
    } else if name == "Shared::new"@ {
        shared_over(argument)
    } else if finishes_with(name, "::new"@) {
        atomic_named(without_suffixes(name, "::new"@))
    } else {
        None
    }
}

/// The type that a call of an associated function gives.
pub open spec fn associated_function_type(
    resolver: ResolverFacts,
    owner: Seq<char>,
    function: Seq<char>,
    argument: Option<TypeView>,
) -> Option<TypeView> {
    if owner == "String"@ && (function == "from_str"@ || function == "with_capacity"@) {
        Some(TypeView::String)
    } else if function != "new"@ {
        None
    } else if owner == "Arc"@ && arc_is_canonical(resolver) {
        arc_over(argument)
    } else if owner == "Mutex"@ && mutex_is_canonical(resolver) {
        mutex_over(argument)
    } else if owner == "Own"@ {
        own_over(argument)
    } else if owner == "Shared"@ {
        shared_over(argument)
    } else {
        atomic_named(owner)
    }
}

/// The lock contents that a type gives access to, directly or through a
/// reference.
pub open spec fn locked_type(ty: TypeView) -> Option<TypeView> {
    match canonical_argument(ty, MUTEX_TYPE_CONSTRUCTOR@) {
        Some(inner) => Some(inner),
        None => match ty {
            TypeView::Ref(inner, _) => canonical_argument(*inner, MUTEX_TYPE_CONSTRUCTOR@),
            _ => None,
        },
    }
}

/// The type that a method call on a synchronization type gives.
pub open spec fn method_type(receiver: TypeView, method: Seq<char>) -> Option<TypeView> {
    match canonical_argument(receiver, ARC_TYPE_CONSTRUCTOR@) {
        Some(inner) => if method == "clone"@ {
            Some(receiver)
        } else if method == "borrow"@ {
            Some(TypeView::Ref(Box::new(inner), Mutability::Immutable))
        } else {
            None
        },
        None => match locked_type(receiver) {
            Some(inner) => {
                let guard = canonical_application(MUTEX_GUARD_TYPE_CONSTRUCTOR@, inner);
                if method == "lock"@ {
                    Some(guard)
                } else if method == "try_lock"@ {
                    Some(TypeView::App { base: "Option"@, args: seq![guard] })
                } else {
                    None
                }
            },
            None => match canonical_argument(receiver, MUTEX_GUARD_TYPE_CONSTRUCTOR@) {
                Some(inner) => if method == "borrow"@ || method == "borrow_mut"@ {
                    Some(TypeView::Ref(Box::new(inner), Mutability::Mutable))
                } else {
                    None
                },
                None => None,
            },
        },
    }
}

/// The annotated type of a parameter, resolved.
pub open spec fn param_type(resolver: ResolverFacts, param: Param) -> Option<TypeView> {
    match param.ty {
        Some(ty) => resolver.denoted_type(ty@),
        None => None,
    }
}

/// The types of the parameters from position `i` on, after `types`, if each one
/// is known.
pub open spec fn param_types_from(
    resolver: ResolverFacts,
    types: Seq<TypeView>,
    params: Seq<Param>,
    i: int,
) -> Option<Seq<TypeView>>
    decreases params.len() - i,
{
    if i < 0 || i >= params.len() {
        Some(types)
    } else {
        match param_type(resolver, params[i]) {
            Some(ty) => param_types_from(resolver, types.push(ty), params, i + 1),
            None => None,
        }
    }
}

pub open spec fn compares(op: BinaryOp) -> bool {
    match op {
        BinaryOp::Eq | BinaryOp::Ne | BinaryOp::Lt | BinaryOp::Le | BinaryOp::Gt | BinaryOp::Ge
        | BinaryOp::And | BinaryOp::Or => true,
        _ => false,
    }
}

/// The type of an expression as far as it can be told without checking it.
pub open spec fn inferred(
    resolver: ResolverFacts,
    expr: Expr,
    walk: WalkView,
) -> Option<TypeView>
    decreases expr, 0nat,
{
    match expr {
        Expr::Lit(literal, _) => Some(
            match literal {
                Literal::Int(_) => TypeView::I32,
                Literal::Float(_) => TypeView::F64,
                Literal::Bool(_) => TypeView::Bool,
                Literal::Str(_) => TypeView::Str,
                Literal::Char(_) => TypeView::Char,
            },
        ),
        Expr::InterpString { .. } => Some(TypeView::String),
        Expr::Ident(name, _) => match walk.visible(name.0@) {
            Some(binding) => binding.resolved_type,
            None => None,
        },
        Expr::Unary { expr, .. } => inferred(resolver, *expr, walk),
        Expr::Try { expr, .. } => inferred(resolver, *expr, walk),
        Expr::Ref { expr, mutability, .. } => match inferred(resolver, *expr, walk) {
            Some(ty) => Some(TypeView::Ref(Box::new(ty), mutability)),
            None => None,
        },
        Expr::Cast { target, .. } => resolver.denoted_type(target@),
        Expr::Binary { op, lhs, .. } => if compares(op) {
            Some(TypeView::Bool)
        } else {
            inferred(resolver, *lhs, walk)
        },
        Expr::ArrayLit { elements, .. } => if elements@.len() == 0 {
            None
        } else {
            match inferred(resolver, elements@[0], walk) {
                Some(ty) => Some(TypeView::Array(Box::new(ty), elements@.len() as usize)),
                None => None,
            }
        },
        Expr::Tuple { elements, .. } => match inferred_all_from(
            resolver,
            Seq::empty(),
            elements@,
            walk,
            0,
        ) {
            Some(types) => Some(TypeView::Tuple(types)),
            None => None,
        },
        Expr::StructLit { name, .. } => Some(TypeView::Named(name.0@)),
        Expr::Index { base, .. } => match inferred(resolver, *base, walk) {
            Some(ty) => element_of(ty),
            None => None,
        },
        Expr::FieldAccess { base, field, .. } => match inferred(resolver, *base, walk) {
            Some(TypeView::Named(name)) => resolver.field_type(name, field.0@),
            _ => None,
        },
        Expr::Call { callee, args, .. } => match inferred(resolver, *callee, walk) {
            Some(TypeView::Function { ret, .. }) => Some(*ret),
            _ => {
                let argument = if args@.len() > 0 {
                    inferred(resolver, args@[0], walk)
                } else {
                    None
                };
                match *callee {
                    Expr::Ident(name, _) => path_constructor_type(resolver, name.0@, argument),
                    Expr::FieldAccess { base, field, .. } => match *base {
                        Expr::Ident(owner, _) => associated_function_type(
                            resolver,
                            owner.0@,
                            field.0@,
                            argument,
                        ),
                        _ => None,
                    },
                    _ => None,
                }
            },
        },
        Expr::Closure { params, body, .. } => match param_types_from(
            resolver,
            Seq::empty(),
            params@,
            0,
        ) {
            Some(params) => match inferred(resolver, *body, walk) {
                Some(ret) => Some(TypeView::Function { params, ret: Box::new(ret) }),
                None => None,
            },
            None => None,
        },
        Expr::MethodCall { receiver, method, .. } => match inferred(resolver, *receiver, walk) {
            Some(ty) => method_type(ty, method.0@),
            None => None,
        },
        Expr::If { .. } => None,
        Expr::Block(_) => None,
        Expr::While { .. } => None,
        Expr::For { .. } => None,
        Expr::ForIn { .. } => None,
        Expr::Match { .. } => None,
    }
}

/// The types of the expressions from position `i` on, after `types`, if each
/// one can be told.
pub open spec fn inferred_all_from(
    resolver: ResolverFacts,
    types: Seq<TypeView>,
    elements: Seq<Expr>,
    walk: WalkView,
    i: int,
) -> Option<Seq<TypeView>>
    decreases elements, elements.len() - i,
{
    if i < 0 || i >= elements.len() {
        Some(types)
    } else {
        match inferred(resolver, elements[i], walk) {
            Some(ty) => inferred_all_from(resolver, types.push(ty), elements, walk, i + 1),
            None => None,
        }
    }
}

fn wrap_arc(ty: Option<Type>) -> (wrapped: Option<Type>)
    ensures
        type_option_view(wrapped) == arc_over(type_option_view(ty)),
{
    match ty {
        Some(ty) => Some(Type::arc(ty)),
        None => None,
    }
}

fn wrap_mutex(ty: Option<Type>) -> (wrapped: Option<Type>)
    ensures
        type_option_view(wrapped) == mutex_over(type_option_view(ty)),
{
    match ty {
        Some(ty) => Some(Type::mutex(ty)),
        None => None,
    }
}

fn wrap_own(ty: Option<Type>) -> (wrapped: Option<Type>)
    ensures
        type_option_view(wrapped) == own_over(type_option_view(ty)),
{
    match ty {
        Some(ty) => Some(Type::Own(Box::new(ty))),
        None => None,
    }
}

fn wrap_shared(ty: Option<Type>) -> (wrapped: Option<Type>)
    ensures
        type_option_view(wrapped) == shared_over(type_option_view(ty)),
{
    match ty {
        Some(ty) => Some(Type::Shared(Box::new(ty))),
        None => None,
    }
}

fn find_atomic(name: &str) -> (ty: Option<Type>)
    ensures
        type_option_view(ty) == atomic_named(name@),
{
    match Type::from_name(name) {
        Some(Type::Atomic(scalar)) => Some(Type::Atomic(scalar)),
        _ => None,
    }
}

fn infer_path_constructor(resolver: &ResolverContext, name: &str, argument: Option<Type>) -> (ty:
    Option<Type>)
    ensures
        type_option_view(ty) == path_constructor_type(
            resolver@,
            name@,
            type_option_view(argument),
        ),
{
    if same_text(name, "Arc::new") && resolver.is_struct_symbol("Arc", "std/sync", "Arc") {
        wrap_arc(argument)
    } else if same_text(name, "Mutex::new") && resolver.is_struct_symbol(
        "Mutex",
        "std/sync",
        "Mutex",
    ) {
        wrap_mutex(argument)
    } else if same_text(name, "Own::new") {
        wrap_own(argument)
    } else if same_text(name, "Shared::new") {
        wrap_shared(argument)
    } else if ends_with(name, "::new") {
        find_atomic(trim_end_matches(name, "::new"))
    } else {
        None
    }
}

fn infer_associated_function(
    resolver: &ResolverContext,
    owner: &str,
    function: &str,
    argument: Option<Type>,
) -> (ty: Option<Type>)
    ensures
        type_option_view(ty) == associated_function_type(
            resolver@,
            owner@,
            function@,
            type_option_view(argument),
        ),
{
    if same_text(owner, "String") && (same_text(function, "from_str") || same_text(
        function,
        "with_capacity",
    )) {
        Some(Type::String)
    } else if !same_text(function, "new") {
        None
    } else if same_text(owner, "Arc") && resolver.is_struct_symbol("Arc", "std/sync", "Arc") {
        wrap_arc(argument)
    } else if same_text(owner, "Mutex") && resolver.is_struct_symbol("Mutex", "std/sync", "Mutex") {
        wrap_mutex(argument)
    } else if same_text(owner, "Own") {
        wrap_own(argument)
    } else if same_text(owner, "Shared") {
        wrap_shared(argument)
    } else {
        find_atomic(owner)
    }
}

fn find_locked_type(ty: &Type) -> (inner: Option<&Type>)
    ensures
        crate::types::type_ref_view(inner) == locked_type(ty@),
{
    match ty.mutex_inner_type() {
        Some(inner) => Some(inner),
        None => match ty {
            Type::Ref(inner, _) => {
                let target: &Type = inner;
                assert(*(ty@->Ref_0) == target@);
                target.mutex_inner_type()
            },
            _ => None,
        },
    }
}

fn infer_method(receiver: &Type, method: &str) -> (ty: Option<Type>)
    ensures
        type_option_view(ty) == method_type(receiver@, method@),
{
    match receiver.arc_inner_type() {
        Some(inner) => {
            return if same_text(method, "clone") {
                Some(receiver.clone())
            } else if same_text(method, "borrow") {
                Some(Type::Ref(Box::new(inner.clone()), Mutability::Immutable))
            } else {
                None
            };
        },
        None => {},
    }
    match find_locked_type(receiver) {
        Some(inner) => {
            return if same_text(method, "lock") {
                Some(Type::mutex_guard(inner.clone()))
            } else if same_text(method, "try_lock") {
                let guard = Type::mutex_guard(inner.clone());
                Some(crate::types::apply_constructor("Option", guard))
            } else {
                None
            };
        },
        None => {},
    }
    match receiver.mutex_guard_inner_type() {
        Some(inner) => if same_text(method, "borrow") || same_text(method, "borrow_mut") {
            Some(Type::Ref(Box::new(inner.clone()), Mutability::Mutable))
        } else {
            None
        },
        None => None,
    }
}

fn infer_params(resolver: &ResolverContext, params: &Vec<Param>) -> (types: Option<Vec<Type>>)
    ensures
        match types {
            Some(types) => param_types_from(resolver@, Seq::empty(), params@, 0) == Some(
                types_view(types@),
            ),
            None => param_types_from(resolver@, Seq::empty(), params@, 0) is None,
        },
{
    let mut types: Vec<Type> = Vec::new();
    assert(types_view(types@) =~= Seq::empty());
    let mut i: usize = 0;
    while i < params.len()
        invariant
            i <= params.len(),
            param_types_from(resolver@, types_view(types@), params@, i as int) == param_types_from(
                resolver@,
                Seq::empty(),
                params@,
                0,
            ),
        decreases params.len() - i,
    {
        let resolved = match &params[i].ty {
            Some(ty) => resolve_type_expr_to_type(ty, resolver),
            None => None,
        };
        match resolved {
            Some(ty) => {
                let ghost before = types@;
                types.push(ty);
                assert(types_view(types@) =~= types_view(before).push(ty@));
            },
            None => {
                return None;
            },
        }
        i += 1;
    }
    Some(types)
}

fn infer_expr_type(resolver: &ResolverContext, expr: &Expr, state: &WalkState) -> (ty: Option<Type>)
    ensures
        type_option_view(ty) == inferred(resolver@, *expr, state@),
    decreases expr, 0nat,
{
    match expr {
        Expr::Lit(literal, _) => Some(
            match literal {
                Literal::Int(_) => Type::I32,
                Literal::Float(_) => Type::F64,
                Literal::Bool(_) => Type::Bool,
                Literal::Str(_) => Type::Str,
                Literal::Char(_) => Type::Char,
            },
        ),
        Expr::InterpString { .. } => Some(Type::String),
        Expr::Ident(name, _) => match state.visible_binding(name.0.as_str()) {
            Some(binding) => clone_type_option(&binding.resolved_type),
            None => None,
        },
        Expr::Unary { expr, .. } => infer_expr_type(resolver, expr, state),
        Expr::Try { expr, .. } => infer_expr_type(resolver, expr, state),
        Expr::Ref { expr, mutability, .. } => match infer_expr_type(resolver, expr, state) {
            Some(ty) => Some(Type::Ref(Box::new(ty), *mutability)),
            None => None,
        },
        Expr::Cast { target, .. } => resolve_type_expr_to_type(target, resolver),
        Expr::Binary { op, lhs, .. } => match op {
            BinaryOp::Eq | BinaryOp::Ne | BinaryOp::Lt | BinaryOp::Le | BinaryOp::Gt
            | BinaryOp::Ge | BinaryOp::And | BinaryOp::Or => Some(Type::Bool),
            _ => infer_expr_type(resolver, lhs, state),
        },
        Expr::ArrayLit { elements, .. } => {
            if elements.len() == 0 {
                return None;
            }
            match infer_expr_type(resolver, &elements[0], state) {
                Some(ty) => Some(Type::Array(Box::new(ty), elements.len())),
                None => None,
            }
        },
        Expr::Tuple { elements, .. } => match infer_all(resolver, elements, state) {
            Some(types) => Some(Type::Tuple(types)),
            None => None,
        },
        Expr::StructLit { name, .. } => Some(Type::Named(name.0.clone())),
        Expr::Index { base, .. } => match infer_expr_type(resolver, base, state) {
            Some(ty) => element_type(&ty),
            None => None,
        },
        Expr::FieldAccess { base, field, .. } => match infer_expr_type(resolver, base, state) {
            Some(Type::Named(name)) => resolver.get_field(name.as_str(), field.0.as_str()),
            _ => None,
        },
        Expr::Call { callee, args, .. } => {
            match infer_expr_type(resolver, callee, state) {
                Some(ty) => match &ty {
                    Type::Function { ret, .. } => {
                        let result: &Type = ret;
                        assert(*(ty@->Function_ret) == result@);
                        return Some(result.clone());
                    },
                    _ => {},
                },
                None => {},
            }
            let argument = if args.len() > 0 {
                infer_expr_type(resolver, &args[0], state)
            } else {
                None
            };
            let target: &Expr = callee;
            match target {
                Expr::Ident(name, _) => infer_path_constructor(
                    resolver,
                    name.0.as_str(),
                    argument,
                ),
                Expr::FieldAccess { base, field, .. } => {
                    let owner: &Expr = base;
                    match owner {
                        Expr::Ident(owner, _) => infer_associated_function(
                            resolver,
                            owner.0.as_str(),
                            field.0.as_str(),
                            argument,
                        ),
                        _ => None,
                    }
                },
                _ => None,
            }
        },
        Expr::Closure { params, body, .. } => match infer_params(resolver, params) {
            Some(params) => match infer_expr_type(resolver, body, state) {
                Some(ret) => Some(Type::Function { params, ret: Box::new(ret) }),
                None => None,
            },
            None => None,
        },
        Expr::MethodCall { receiver, method, .. } => match infer_expr_type(
            resolver,
            receiver,
            state,
        ) {
            Some(ty) => infer_method(&ty, method.0.as_str()),
            None => None,
        },
        Expr::If { .. } => None,
        Expr::Block(_) => None,
        Expr::While { .. } => None,
        Expr::For { .. } => None,
        Expr::ForIn { .. } => None,
        Expr::Match { .. } => None,
    }
}

fn infer_all(resolver: &ResolverContext, elements: &Vec<Expr>, state: &WalkState) -> (types: Option<
    Vec<Type>,
>)
    ensures
        match types {
            Some(types) => inferred_all_from(resolver@, Seq::empty(), elements@, state@, 0)
                == Some(types_view(types@)),
            None => inferred_all_from(resolver@, Seq::empty(), elements@, state@, 0) is None,
        },
    decreases elements, 0nat,
{
    let mut types: Vec<Type> = Vec::new();
    assert(types_view(types@) =~= Seq::empty());
    let mut i: usize = 0;
    while i < elements.len()
        invariant
            i <= elements.len(),
            inferred_all_from(resolver@, types_view(types@), elements@, state@, i as int)
                == inferred_all_from(resolver@, Seq::empty(), elements@, state@, 0),
        decreases elements.len() - i,
    {
        match infer_expr_type(resolver, &elements[i], state) {
            Some(ty) => {
                let ghost before = types@;
                types.push(ty);
                assert(types_view(types@) =~= types_view(before).push(ty@));
            },
            None => {
                return None;
            },
        }
        i += 1;
    }
    Some(types)
}

/// The ids with one more, in increasing order and without repetition.
pub open spec fn with_id(ids: Seq<u32>, id: u32, i: int) -> Seq<u32>
    decreases ids.len() - i,
{
    if i < 0 || i >= ids.len() {
        ids.push(id)
    } else if ids[i] == id {
        ids
    } else if ids[i] > id {
        ids.insert(i, id)
    } else {
        with_id(ids, id, i + 1)
    }
}

pub open spec fn with_ids_from(ids: Seq<u32>, more: Seq<u32>, i: int) -> Seq<u32>
    decreases more.len() - i,
{
    if i < 0 || i >= more.len() {
        ids
    } else {
        with_ids_from(with_id(ids, more[i], 0), more, i + 1)
    }
}

/// The closure that was written at a place.
pub open spec fn closure_at(spans: Seq<(Span, u32)>, span: Span, i: int) -> Option<u32>
    decreases spans.len() - i,
{
    if i < 0 || i >= spans.len() {
        None
    } else if spans[i].0 == span {
        Some(spans[i].1)
    } else {
        closure_at(spans, span, i + 1)
    }
}

/// The ids joined by the closures that an expression may evaluate to.
pub open spec fn gathered(
    spans: Seq<(Span, u32)>,
    walk: WalkView,
    ids: Seq<u32>,
    expr: Expr,
) -> Seq<u32>
    decreases expr, 0nat,
{
    match expr {
        Expr::Closure { span, .. } => match closure_at(spans, span, 0) {
            Some(id) => with_id(ids, id, 0),
            None => ids,
        },
        Expr::Ident(name, _) => match walk.visible(name.0@) {
            Some(binding) => with_ids_from(ids, binding.closure_values, 0),
            None => ids,
        },
        Expr::ArrayLit { elements, .. } => gathered_from(spans, walk, ids, elements@, 0),
        Expr::Tuple { elements, .. } => gathered_from(spans, walk, ids, elements@, 0),
        Expr::StructLit { fields, .. } => gathered_fields_from(spans, walk, ids, fields@, 0),
        Expr::Cast { expr, .. } => gathered(spans, walk, ids, *expr),
        Expr::Try { expr, .. } => gathered(spans, walk, ids, *expr),
        Expr::If { then_block, else_block, .. } => {
            let first = gathered_block(spans, walk, ids, then_block);
            match else_block {
                Some(block) => gathered_block(spans, walk, first, block),
                None => first,
            }
        },
        Expr::Block(block) => gathered_block(spans, walk, ids, block),
        Expr::Match { arms, .. } => gathered_arms_from(spans, walk, ids, arms@, 0),
        _ => ids,
    }
}

pub open spec fn gathered_from(
    spans: Seq<(Span, u32)>,
    walk: WalkView,
    ids: Seq<u32>,
    exprs: Seq<Expr>,
    i: int,
) -> Seq<u32>
    decreases exprs, exprs.len() - i,
{
    if i < 0 || i >= exprs.len() {
        ids
    } else {
        gathered_from(spans, walk, gathered(spans, walk, ids, exprs[i]), exprs, i + 1)
    }
}

pub open spec fn gathered_fields_from(
    spans: Seq<(Span, u32)>,
    walk: WalkView,
    ids: Seq<u32>,
    fields: Seq<(Ident, Expr)>,
    i: int,
) -> Seq<u32>
    decreases fields, fields.len() - i,
{
    if i < 0 || i >= fields.len() {
        ids
    } else {
        gathered_fields_from(spans, walk, gathered(spans, walk, ids, fields[i].1), fields, i + 1)
    }
}

pub open spec fn gathered_arms_from(
    spans: Seq<(Span, u32)>,
    walk: WalkView,
    ids: Seq<u32>,
    arms: Seq<MatchArm>,
    i: int,
) -> Seq<u32>
    decreases arms, arms.len() - i,
{
    if i < 0 || i >= arms.len() {
        ids
    } else {
        gathered_arms_from(spans, walk, gathered(spans, walk, ids, arms[i].expr), arms, i + 1)
    }
}

/// A block evaluates to its last expression or returned value.
pub open spec fn gathered_block(
    spans: Seq<(Span, u32)>,
    walk: WalkView,
    ids: Seq<u32>,
    block: Block,
) -> Seq<u32>
    decreases block, 0nat,
{
    if block.stmts@.len() == 0 {
        ids
    } else {
        match block.stmts@[block.stmts@.len() - 1] {
            Stmt::Expr(expr, _) => gathered(spans, walk, ids, expr),
            Stmt::Ret(Some(expr), _) => gathered(spans, walk, ids, expr),
            _ => ids,
        }
    }
}

fn add_id(ids: &mut Vec<u32>, id: u32)
    ensures
        final(ids)@ == with_id(old(ids)@, id, 0),
{
    let mut i: usize = 0;
    while i < ids.len()
        invariant
            i <= ids.len(),
            ids@ == old(ids)@,
            with_id(ids@, id, i as int) == with_id(ids@, id, 0),
        decreases ids.len() - i,
    {
        if ids[i] == id {
            return ;
        }
        if ids[i] > id {
            ids.insert(i, id);
            return ;
        }
        i += 1;
    }
    ids.push(id);
}

fn add_ids(ids: &mut Vec<u32>, more: &Vec<u32>)
    ensures
        final(ids)@ == with_ids_from(old(ids)@, more@, 0),
{
    let mut i: usize = 0;
    while i < more.len()
        invariant
            i <= more.len(),
            with_ids_from(ids@, more@, i as int) == with_ids_from(old(ids)@, more@, 0),
        decreases more.len() - i,
    {
        add_id(ids, more[i]);
        i += 1;
    }
}

fn closure_id_for_span(spans: &Vec<(Span, u32)>, span: Span) -> (id: Option<u32>)
    ensures
        id == closure_at(spans@, span, 0),
{
    let mut i: usize = 0;
    while i < spans.len()
        invariant
            i <= spans.len(),
            closure_at(spans@, span, i as int) == closure_at(spans@, span, 0),
        decreases spans.len() - i,
    {
        if spans[i].0 == span {
            return Some(spans[i].1);
        }
        i += 1;
    }
    None
}

fn gather(spans: &Vec<(Span, u32)>, state: &WalkState, ids: &mut Vec<u32>, expr: &Expr)
    ensures
        final(ids)@ == gathered(spans@, state@, old(ids)@, *expr),
    decreases expr, 0nat,
{
    match expr {
        Expr::Closure { span, .. } => match closure_id_for_span(spans, *span) {
            Some(id) => add_id(ids, id),
            None => {},
        },
        Expr::Ident(name, _) => match state.visible_binding(name.0.as_str()) {
            Some(binding) => add_ids(ids, &binding.closure_values),
            None => {},
        },
        Expr::ArrayLit { elements, .. } => gather_all(spans, state, ids, elements),
        Expr::Tuple { elements, .. } => gather_all(spans, state, ids, elements),
        Expr::StructLit { fields, .. } => gather_fields(spans, state, ids, fields),
        Expr::Cast { expr, .. } => gather(spans, state, ids, expr),
        Expr::Try { expr, .. } => gather(spans, state, ids, expr),
        Expr::If { then_block, else_block, .. } => {
            gather_block(spans, state, ids, then_block);
            match else_block {
                Some(block) => gather_block(spans, state, ids, block),
                None => {},
            }
        },
        Expr::Block(block) => gather_block(spans, state, ids, block),
        Expr::Match { arms, .. } => gather_arms(spans, state, ids, arms),
        _ => {},
    }
}

fn gather_all(spans: &Vec<(Span, u32)>, state: &WalkState, ids: &mut Vec<u32>, exprs: &Vec<Expr>)
    ensures
        final(ids)@ == gathered_from(spans@, state@, old(ids)@, exprs@, 0),
    decreases exprs, 0nat,
{
    let mut i: usize = 0;
    while i < exprs.len()
        invariant
            i <= exprs.len(),
            gathered_from(spans@, state@, ids@, exprs@, i as int) == gathered_from(
                spans@,
                state@,
                old(ids)@,
                exprs@,
                0,
            ),
        decreases exprs.len() - i,
    {
        gather(spans, state, ids, &exprs[i]);
        i += 1;
    }
}

fn gather_fields(
    spans: &Vec<(Span, u32)>,
    state: &WalkState,
    ids: &mut Vec<u32>,
    fields: &Vec<(Ident, Expr)>,
)
    ensures
        final(ids)@ == gathered_fields_from(spans@, state@, old(ids)@, fields@, 0),
    decreases fields, 0nat,
{
    let mut i: usize = 0;
    while i < fields.len()
        invariant
            i <= fields.len(),
            gathered_fields_from(spans@, state@, ids@, fields@, i as int) == gathered_fields_from(
                spans@,
                state@,
                old(ids)@,
                fields@,
                0,
            ),
        decreases fields.len() - i,
    {
        gather(spans, state, ids, &fields[i].1);
        i += 1;
    }
}

fn gather_arms(
    spans: &Vec<(Span, u32)>,
    state: &WalkState,
    ids: &mut Vec<u32>,
    arms: &Vec<MatchArm>,
)
    ensures
        final(ids)@ == gathered_arms_from(spans@, state@, old(ids)@, arms@, 0),
    decreases arms, 0nat,
{
    let mut i: usize = 0;
    while i < arms.len()
        invariant
            i <= arms.len(),
            gathered_arms_from(spans@, state@, ids@, arms@, i as int) == gathered_arms_from(
                spans@,
                state@,
                old(ids)@,
                arms@,
                0,
            ),
        decreases arms.len() - i,
    {
        gather(spans, state, ids, &arms[i].expr);
        i += 1;
    }
}

fn gather_block(spans: &Vec<(Span, u32)>, state: &WalkState, ids: &mut Vec<u32>, block: &Block)
    ensures
        final(ids)@ == gathered_block(spans@, state@, old(ids)@, *block),
    decreases block, 0nat,
{
    if block.stmts.len() == 0 {
        return ;
    }
    match &block.stmts[block.stmts.len() - 1] {
        Stmt::Expr(expr, _) => gather(spans, state, ids, expr),
        Stmt::Ret(Some(expr), _) => gather(spans, state, ids, expr),
        _ => {},
    }
}

/// What an analysis has found so far.
pub struct FactsView {
    pub next_binding_id: u32,
    pub next_declaration_order: u32,
    pub closures: Seq<ClosureInfoView>,
    pub closure_spans: Seq<(Span, u32)>,
    /// Where each moved binding was moved into a closure.
    pub moved: Seq<(u32, Span)>,
    /// Where each closure was called last.
    pub calls: Seq<(u32, Span)>,
    pub diagnostics: Seq<DiagnosticView>,
}

/// The findings together with the state of the current walk.
pub struct StateView {
    pub facts: FactsView,
    pub walk: WalkView,
}

/// Counters start over after the largest number.
pub open spec fn counted_up(n: u32) -> u32 {
    if n == u32::MAX {
        0
    } else {
        (n + 1) as u32
    }
}

impl FactsView {
    pub open spec fn start() -> FactsView {
        FactsView {
            next_binding_id: 0,
            next_declaration_order: 0,
            closures: Seq::empty(),
            closure_spans: Seq::empty(),
            moved: Seq::empty(),
            calls: Seq::empty(),
            diagnostics: Seq::empty(),
        }
    }

    pub open spec fn with_error(self, message: Seq<char>, span: Span) -> FactsView {
        FactsView { diagnostics: self.diagnostics.push(error_view(message, Some(span))), ..self }
    }

    /// The binding that is declared next.
    pub open spec fn new_binding(
        self,
        resolver: ResolverFacts,
        name: Seq<char>,
        span: Span,
        declared: Option<TypeExprView>,
        inferred_type: Option<TypeView>,
        closure_values: Seq<u32>,
    ) -> BindingView {
        let annotated = match declared {
            Some(ty) => resolver.denoted_type(ty),
            None => None,
        };
        BindingView {
            id: self.next_binding_id,
            name,
            declaration_span: span,
            declared_type: declared,
            resolved_type: match annotated {
                Some(ty) => Some(ty),
                None => inferred_type,
            },
            declaration_order: self.next_declaration_order,
            closure_values,
        }
    }

    pub open spec fn after_binding(self) -> FactsView {
        FactsView {
            next_binding_id: counted_up(self.next_binding_id),
            next_declaration_order: counted_up(self.next_declaration_order),
            ..self
        }
    }

    /// A moved binding must not be used.
    pub open spec fn used(self, binding: BindingView, span: Span) -> FactsView {
        if has_key(self.moved, binding.id) {
            let ty = match binding.resolved_type {
                Some(ty) => " of type `"@ + label_text(ty) + "`"@,
                None => ""@,
            };
            self.with_error("use of moved value `"@ + binding.name + "`"@ + ty, span)
        } else {
            self
        }
    }
}

impl StateView {
    pub open spec fn entered(self) -> StateView {
        StateView { walk: self.walk.entered(), ..self }
    }

    pub open spec fn left(self) -> StateView {
        StateView { walk: self.walk.left(), ..self }
    }

    pub open spec fn with_binding(
        self,
        resolver: ResolverFacts,
        name: Seq<char>,
        span: Span,
        declared: Option<TypeExprView>,
        inferred_type: Option<TypeView>,
        closure_values: Seq<u32>,
    ) -> StateView {
        StateView {
            facts: self.facts.after_binding(),
            walk: self.walk.declared(
                self.facts.new_binding(
                    resolver,
                    name,
                    span,
                    declared,
                    inferred_type,
                    closure_values,
                ),
            ),
        }
    }

    /// A use of a name. Function items, constants, enum constructors, and
    /// ordinary unresolved names are not lexical captures.
    pub open spec fn referenced(self, name: Seq<char>, span: Span) -> StateView {
        match self.walk.local(name) {
            Some(binding) => StateView { facts: self.facts.used(binding, span), ..self },
            None => match self.walk.outer(name) {
                Some(binding) => StateView {
                    facts: self.facts.used(binding, span),
                    walk: self.walk.captured(binding, span),
                },
                None => match self.walk.recursive_owner {
                    Some((owner, _)) => if owner == name {
                        StateView {
                            facts: self.facts.with_error(
                                "recursive closure cycle through `"@ + name
                                    + "` is not supported; initialize a non-recursive callable instead"@,
                                span,
                            ),
                            ..self
                        }
                    } else {
                        self
                    },
                    None => self,
                },
            },
        }
    }

    /// The closures that an expression may evaluate to, in order of creation.
    pub open spec fn closure_values(self, expr: Expr) -> Seq<u32> {
        gathered(self.facts.closure_spans, self.walk, Seq::empty(), expr)
    }

    /// The closures that an expression may evaluate to escape.
    pub open spec fn escaped(self, expr: Expr, kind: ClosureEscapeKind, span: Span) -> StateView {
        StateView {
            facts: FactsView {
                closures: escaped_from(
                    self.facts.closures,
                    self.closure_values(expr),
                    ClosureEscape { kind, span },
                    0,
                ),
                ..self.facts
            },
            ..self
        }
    }

    /// The closures that an expression may evaluate to are called.
    pub open spec fn called(self, callee: Expr, span: Span) -> StateView {
        StateView {
            facts: called_from(
                self.facts,
                self.closure_values(callee),
                callee_text(callee),
                span,
                0,
            ),
            ..self
        }
    }

    /// The innermost binding of a name gets a new value.
    pub open spec fn assigned(
        self,
        name: Seq<char>,
        values: Seq<u32>,
        inferred_type: Option<TypeView>,
    ) -> StateView {
        match self.walk.local_position(name) {
            Some((s, j)) => {
                let binding = self.walk.scopes[s][j];
                let updated = BindingView {
                    closure_values: values,
                    resolved_type: match binding.resolved_type {
                        Some(ty) => Some(ty),
                        None => inferred_type,
                    },
                    ..binding
                };
                StateView {
                    walk: WalkView {
                        scopes: self.walk.scopes.update(s, self.walk.scopes[s].update(j, updated)),
                        ..self.walk
                    },
                    ..self
                }
            },
            None => self,
        }
    }
}

/// A closure escapes at most once in the same way at the same place.
pub open spec fn with_escape(info: ClosureInfoView, escape: ClosureEscape) -> ClosureInfoView {
    if info.escapes.contains(escape) {
        info
    } else {
        ClosureInfoView { escapes: info.escapes.push(escape), ..info }
    }
}

pub open spec fn escaped_from(
    closures: Seq<ClosureInfoView>,
    ids: Seq<u32>,
    escape: ClosureEscape,
    i: int,
) -> Seq<ClosureInfoView>
    decreases ids.len() - i,
{
    if i < 0 || i >= ids.len() {
        closures
    } else {
        let k = ids[i] as int;
        let marked = if k < closures.len() {
            closures.update(k, with_escape(closures[k], escape))
        } else {
            closures
        };
        escaped_from(marked, ids, escape, i + 1)
    }
}

pub open spec fn callee_text(callee: Expr) -> Seq<char> {
    match callee {
        Expr::Ident(name, _) => " `"@ + name.0@ + "`"@,
        _ => ""@,
    }
}

/// A closure can be called once.
pub open spec fn called_from(
    facts: FactsView,
    ids: Seq<u32>,
    name: Seq<char>,
    span: Span,
    i: int,
) -> FactsView
    decreases ids.len() - i,
{
    if i < 0 || i >= ids.len() {
        facts
    } else {
        let checked = if has_key(facts.calls, ids[i]) {
            facts.with_error(
                "use of moved FnOnce closure"@ + name + "; closure values can be called once"@,
                span,
            )
        } else {
            facts
        };
        called_from(
            FactsView { calls: with_entry(facts.calls, ids[i], span), ..checked },
            ids,
            name,
            span,
            i + 1,
        )
    }
}

/// What a capture means for the environment of its closure.
pub open spec fn capture_facts(
    resolver: ResolverFacts,
    capture: CapturedBindingView,
    mode: CaptureMode,
) -> ClosureCaptureView {
    let ty = capture.binding.resolved_type;
    ClosureCaptureView {
        binding_id: capture.binding.id,
        name: capture.binding.name,
        declaration_span: capture.binding.declaration_span,
        first_use_span: capture.first_use_span,
        declared_type: capture.binding.declared_type,
        resolved_type: ty,
        ownership: if ty is Some && copyable(ty->0) {
            CaptureOwnership::Copy
        } else {
            CaptureOwnership::Move
        },
        explicit_move: mode == CaptureMode::Move,
        transitively_borrowed: ty is Some && holds_borrowed(resolver, ty->0, Seq::empty()),
    }
}

pub open spec fn all_capture_facts(
    resolver: ResolverFacts,
    captures: Seq<CapturedBindingView>,
    mode: CaptureMode,
) -> Seq<ClosureCaptureView> {
    Seq::new(captures.len(), |i: int| capture_facts(resolver, captures[i], mode))
}

/// The captures that move their source.
pub open spec fn moved_from(
    moved: Seq<(u32, Span)>,
    captures: Seq<ClosureCaptureView>,
    span: Span,
    i: int,
) -> Seq<(u32, Span)>
    decreases captures.len() - i,
{
    if i < 0 || i >= captures.len() {
        moved
    } else {
        let next = if captures[i].ownership == CaptureOwnership::Move && !has_key(
            moved,
            captures[i].binding_id,
        ) {
            with_entry(moved, captures[i].binding_id, span)
        } else {
            moved
        };
        moved_from(next, captures, span, i + 1)
    }
}

/// The first capture of the given binding, from position `i` on.
pub open spec fn capture_of(captures: Seq<CapturedBindingView>, id: u32, i: int) -> Option<int>
    decreases captures.len() - i,
{
    if i < 0 || i >= captures.len() {
        None
    } else if captures[i].binding.id == id {
        Some(i)
    } else {
        capture_of(captures, id, i + 1)
    }
}

/// A closure must not capture the binding that it is assigned to.
pub open spec fn cycle_checked(
    facts: FactsView,
    captures: Seq<CapturedBindingView>,
    owner: Option<(Seq<char>, Option<u32>)>,
) -> FactsView {
    match owner {
        Some((name, Some(id))) => match capture_of(captures, id, 0) {
            Some(i) => facts.with_error(
                "recursive closure cycle through `"@ + name + "` is not supported in v1"@,
                captures[i].first_use_span,
            ),
            None => facts,
        },
        _ => facts,
    }
}

/// The findings when a closure begins: it gets the next number.
pub open spec fn opened(facts: FactsView, span: Span, mode: CaptureMode) -> FactsView {
    let id = facts.closures.len() as u32;
    FactsView {
        closure_spans: facts.closure_spans.push((span, id)),
        closures: facts.closures.push(
            ClosureInfoView {
                closure_id: id,
                span,
                capture_mode: mode,
                is_fn_once: true,
                captures: Seq::empty(),
                escapes: Seq::empty(),
            },
        ),
        ..facts
    }
}

/// The findings when a closure with the given captures ends.
pub open spec fn closed(
    resolver: ResolverFacts,
    facts: FactsView,
    index: int,
    captures: Seq<CapturedBindingView>,
    mode: CaptureMode,
    span: Span,
    owner: Option<(Seq<char>, Option<u32>)>,
) -> FactsView {
    let checked = cycle_checked(facts, captures, owner);
    let public = all_capture_facts(resolver, captures, mode);
    FactsView {
        moved: moved_from(checked.moved, public, span, 0),
        closures: if 0 <= index < checked.closures.len() {
            checked.closures.update(
                index,
                ClosureInfoView { captures: public, ..checked.closures[index] },
            )
        } else {
            checked.closures
        },
        ..checked
    }
}

/// The parameters from position `i` on are declared.
pub open spec fn params_declared_from(
    resolver: ResolverFacts,
    state: StateView,
    params: Seq<Param>,
    i: int,
) -> StateView
    decreases params.len() - i,
{
    if i < 0 || i >= params.len() {
        state
    } else {
        params_declared_from(
            resolver,
            state.with_binding(
                resolver,
                params[i].name.0@,
                params[i].span,
                type_expr_option_view(params[i].ty),
                None,
                Seq::empty(),
            ),
            params,
            i + 1,
        )
    }
}

/// Whether a method puts its arguments into a container.
pub open spec fn inserts(method: Seq<char>) -> bool {
    method == "push"@ || method == "insert"@ || method == "add"@ || method == "update"@ || method
        == "set"@
}

pub open spec fn argument_escape(method: Seq<char>) -> ClosureEscapeKind {
    if inserts(method) {
        ClosureEscapeKind::ContainerInsertion
    } else {
        ClosureEscapeKind::Transfer
    }
}

/// The name that a match arm binds.
pub open spec fn arm_binding(pattern: MatchPattern) -> Option<Seq<char>> {
    match pattern {
        MatchPattern::Variant { binding: Some(name), .. } => Some(name.0@),
        _ => None,
    }
}

/// The state after an expression. `owner` is the name that the value of the
/// expression is about to be stored under.
pub open spec fn after_expr(
    resolver: ResolverFacts,
    expr: Expr,
    state: StateView,
    owner: Option<(Seq<char>, Option<u32>)>,
) -> StateView
    decreases expr, 0nat,
{
    match expr {
        Expr::Lit(_, _) => state,
        Expr::InterpString { segments, .. } => after_segments_from(resolver, segments@, state, 0),
        Expr::Ident(name, span) => state.referenced(name.0@, span),
        Expr::Unary { expr, .. } => after_expr(resolver, *expr, state, None),
        Expr::Try { expr, .. } => after_expr(resolver, *expr, state, None),
        Expr::Cast { expr, .. } => after_expr(resolver, *expr, state, None),
        Expr::Ref { expr, .. } => after_expr(resolver, *expr, state, None),
        Expr::Binary { lhs, rhs, .. } => after_expr(
            resolver,
            *rhs,
            after_expr(resolver, *lhs, state, None),
            None,
        ),
        Expr::Call { callee, args, span } => after_stored_from(
            resolver,
            args@,
            after_expr(resolver, *callee, state, None).called(*callee, span),
            ClosureEscapeKind::Transfer,
            span,
            0,
        ),
        Expr::If { cond, then_block, else_block, .. } => {
            let first = after_block(
                resolver,
                then_block,
                after_expr(resolver, *cond, state, None),
                true,
                false,
            );
            match else_block {
                Some(block) => after_block(resolver, block, first, true, false),
                None => first,
            }
        },
        Expr::Block(block) => after_block(resolver, block, state, true, false),
        Expr::StructLit { fields, span, .. } => after_fields_from(
            resolver,
            fields@,
            state,
            span,
            0,
        ),
        Expr::FieldAccess { base, .. } => after_expr(resolver, *base, state, None),
        Expr::While { cond, body, .. } => after_block(
            resolver,
            body,
            after_expr(resolver, *cond, state, None),
            true,
            false,
        ),
        Expr::For { var, start, end, body, span } => {
            let ready = after_expr(
                resolver,
                *end,
                after_expr(resolver, *start, state, None),
                None,
            );
            let bound = ready.entered().with_binding(
                resolver,
                var.0@,
                span,
                None,
                Some(TypeView::I32),
                Seq::empty(),
            );
            after_block(resolver, body, bound, false, false).left()
        },
        Expr::ForIn { var, iter, body, span } => {
            let ready = after_expr(resolver, *iter, state, None);
            let element = match inferred(resolver, *iter, ready.walk) {
                Some(ty) => element_of(ty),
                None => None,
            };
            let bound = ready.entered().with_binding(
                resolver,
                var.0@,
                span,
                None,
                element,
                Seq::empty(),
            );
            after_block(resolver, body, bound, false, false).left()
        },
        Expr::ArrayLit { elements, span } => after_stored_from(
            resolver,
            elements@,
            state,
            ClosureEscapeKind::Storage,
            span,
            0,
        ),
        Expr::Tuple { elements, span } => after_stored_from(
            resolver,
            elements@,
            state,
            ClosureEscapeKind::Storage,
            span,
            0,
        ),
        Expr::Index { base, index, .. } => after_expr(
            resolver,
            *index,
            after_expr(resolver, *base, state, None),
            None,
        ),
        Expr::MethodCall { receiver, method, args, span } => after_stored_from(
            resolver,
            args@,
            after_expr(resolver, *receiver, state, None),
            argument_escape(method.0@),
            span,
            0,
        ),
        Expr::Match { scrutinee, arms, .. } => after_arms_from(
            resolver,
            arms@,
            after_expr(resolver, *scrutinee, state, None),
            0,
        ),
        Expr::Closure { capture, params, body, span } => {
            let inside = after_closure_body(
                resolver,
                params@,
                *body,
                span,
                StateView {
                    facts: opened(state.facts, span, capture),
                    walk: WalkView::start(state.walk.all_visible(), owner),
                },
            );
            let captures = ordered(inside.walk.captures);
            StateView {
                facts: closed(
                    resolver,
                    inside.facts,
                    state.facts.closures.len() as int,
                    captures,
                    capture,
                    span,
                    owner,
                ),
                walk: state.walk.absorbed_from(captures, 0),
            }
        },
    }
}

/// The state after the body of a closure: what it evaluates to is returned.
pub open spec fn after_closure_body(
    resolver: ResolverFacts,
    params: Seq<Param>,
    body: Expr,
    span: Span,
    state: StateView,
) -> StateView
    decreases body, 1nat,
{
    let ready = params_declared_from(resolver, state, params, 0);
    match body {
        Expr::Block(block) => after_block(resolver, block, ready, true, true),
        _ => after_expr(resolver, body, ready, None).escaped(
            body,
            ClosureEscapeKind::Return,
            span,
        ),
    }
}

pub open spec fn after_segments_from(
    resolver: ResolverFacts,
    segments: Seq<InterpSegment>,
    state: StateView,
    i: int,
) -> StateView
    decreases segments, segments.len() - i,
{
    if i < 0 || i >= segments.len() {
        state
    } else {
        let next = match segments[i] {
            InterpSegment::Expr(expr) => after_expr(resolver, expr, state, None),
            _ => state,
        };
        after_segments_from(resolver, segments, next, i + 1)
    }
}

/// The state after expressions whose values are stored or handed over.
pub open spec fn after_stored_from(
    resolver: ResolverFacts,
    exprs: Seq<Expr>,
    state: StateView,
    kind: ClosureEscapeKind,
    span: Span,
    i: int,
) -> StateView
    decreases exprs, exprs.len() - i,
{
    if i < 0 || i >= exprs.len() {
        state
    } else {
        after_stored_from(
            resolver,
            exprs,
            after_expr(resolver, exprs[i], state, None).escaped(exprs[i], kind, span),
            kind,
            span,
            i + 1,
        )
    }
}

pub open spec fn after_fields_from(
    resolver: ResolverFacts,
    fields: Seq<(Ident, Expr)>,
    state: StateView,
    span: Span,
    i: int,
) -> StateView
    decreases fields, fields.len() - i,
{
    if i < 0 || i >= fields.len() {
        state
    } else {
        after_fields_from(
            resolver,
            fields,
            after_expr(resolver, fields[i].1, state, None).escaped(
                fields[i].1,
                ClosureEscapeKind::Storage,
                span,
            ),
            span,
            i + 1,
        )
    }
}

pub open spec fn after_arms_from(
    resolver: ResolverFacts,
    arms: Seq<MatchArm>,
    state: StateView,
    i: int,
) -> StateView
    decreases arms, arms.len() - i,
{
    if i < 0 || i >= arms.len() {
        state
    } else {
        let entered = state.entered();
        let bound = match arm_binding(arms[i].pattern) {
            Some(name) => entered.with_binding(
                resolver,
                name,
                arms[i].span,
                None,
                None,
                Seq::empty(),
            ),
            None => entered,
        };
        after_arms_from(
            resolver,
            arms,
            after_expr(resolver, arms[i].expr, bound, None).left(),
            i + 1,
        )
    }
}

/// The state after a block. `yields` says whether its last value is the result of the function.
pub open spec fn after_block(
    resolver: ResolverFacts,
    block: Block,
    state: StateView,
    scoped: bool,
    yields: bool,
) -> StateView
    decreases block, 1nat,
{
    let entered = if scoped {
        state.entered()
    } else {
        state
    };
    let walked = after_stmts_from(resolver, block.stmts@, entered, yields, 0);
    if scoped {
        walked.left()
    } else {
        walked
    }
}

pub open spec fn after_stmts_from(
    resolver: ResolverFacts,
    stmts: Seq<Stmt>,
    state: StateView,
    yields: bool,
    i: int,
) -> StateView
    decreases stmts, stmts.len() - i,
{
    if i < 0 || i >= stmts.len() {
        state
    } else {
        after_stmts_from(
            resolver,
            stmts,
            after_stmt(resolver, stmts[i], state, yields && i == stmts.len() - 1),
            yields,
            i + 1,
        )
    }
}

/// The name that an assignment stores a value under, if it is a binding.
pub open spec fn assignment_owner(target: Expr, walk: WalkView) -> Option<
    (Seq<char>, Option<u32>),
> {
    match target {
        Expr::Ident(name, _) => match walk.visible(name.0@) {
            Some(binding) => Some((name.0@, Some(binding.id))),
            None => None,
        },
        _ => None,
    }
}

/// The state after a statement.
pub open spec fn after_stmt(
    resolver: ResolverFacts,
    stmt: Stmt,
    state: StateView,
    implicit_return: bool,
) -> StateView
    decreases stmt, 0nat,
{
    match stmt {
        Stmt::Expr(expr, span) => {
            let next = after_expr(resolver, expr, state, None);
            if implicit_return {
                next.escaped(expr, ClosureEscapeKind::Return, span)
            } else {
                next
            }
        },
        Stmt::Ret(Some(expr), span) => after_expr(resolver, expr, state, None).escaped(
            expr,
            ClosureEscapeKind::Return,
            span,
        ),
        Stmt::Ret(None, _) => state,
        Stmt::Let { name, ty, value, span, .. } => match value {
            Some(value) => {
                let next = after_expr(resolver, value, state, Some((name.0@, None)));
                next.with_binding(
                    resolver,
                    name.0@,
                    span,
                    type_expr_option_view(ty),
                    inferred(resolver, value, next.walk),
                    next.closure_values(value),
                )
            },
            None => state.with_binding(
                resolver,
                name.0@,
                span,
                type_expr_option_view(ty),
                None,
                Seq::empty(),
            ),
        },
        Stmt::Assign { target, value, span } => {
            let ready = after_expr(resolver, target, state, None);
            let next = after_expr(resolver, value, ready, assignment_owner(target, ready.walk));
            match target {
                Expr::Ident(name, _) => next.assigned(
                    name.0@,
                    next.closure_values(value),
                    inferred(resolver, value, next.walk),
                ),
                Expr::FieldAccess { .. } => next.escaped(value, ClosureEscapeKind::Storage, span),
                Expr::Index { .. } => next.escaped(value, ClosureEscapeKind::Storage, span),
                _ => next,
            }
        },
        Stmt::Break(_) => state,
        Stmt::Continue(_) => state,
    }
}

/// The borrowed captures from position `i` on of a closure that escapes.
pub open spec fn borrow_errors_from(
    diagnostics: Seq<DiagnosticView>,
    captures: Seq<ClosureCaptureView>,
    kind: ClosureEscapeKind,
    i: int,
) -> Seq<DiagnosticView>
    decreases captures.len() - i,
{
    if i < 0 || i >= captures.len() {
        diagnostics
    } else {
        let next = if captures[i].transitively_borrowed {
            diagnostics.push(
                error_view(
                    "borrowed capture `"@ + captures[i].name + "` cannot escape through "@
                        + escape_text(kind) + "; capture owned data instead"@,
                    Some(captures[i].first_use_span),
                ),
            )
        } else {
            diagnostics
        };
        borrow_errors_from(next, captures, kind, i + 1)
    }
}

/// The escapes of borrowed data from closure `i` on.
pub open spec fn escape_errors_from(
    diagnostics: Seq<DiagnosticView>,
    closures: Seq<ClosureInfoView>,
    i: int,
) -> Seq<DiagnosticView>
    decreases closures.len() - i,
{
    if i < 0 || i >= closures.len() {
        diagnostics
    } else {
        let next = if closures[i].escapes.len() > 0 {
            borrow_errors_from(diagnostics, closures[i].captures, closures[i].escapes[0].kind, 0)
        } else {
            diagnostics
        };
        escape_errors_from(next, closures, i + 1)
    }
}

/// The state after walking a function.
pub open spec fn after_function(resolver: ResolverFacts, function: Function) -> StateView {
    let start = StateView {
        facts: FactsView::start(),
        walk: WalkView::start(Seq::empty(), None),
    };
    after_block(
        resolver,
        function.body,
        params_declared_from(resolver, start, function.params@, 0),
        false,
        true,
    )
}

/// The analysis of a function.
pub open spec fn function_analysis(
    resolver: ResolverFacts,
    function: Function,
) -> ClosureAnalysisView {
    let facts = after_function(resolver, function).facts;
    ClosureAnalysisView {
        closures: facts.closures,
        diagnostics: escape_errors_from(facts.diagnostics, facts.closures, 0),
    }
}

/// The findings of an analysis in progress.
pub struct Analyzer {
    next_binding_id: u32,
    next_declaration_order: u32,
    closures: Vec<ClosureInfo>,
    closure_spans: Vec<(Span, u32)>,
    moved_bindings: IdMap<Span>,
    closure_calls: IdMap<Span>,
    diagnostics: Vec<Diagnostic>,
}

impl View for Analyzer {
    type V = FactsView;

    closed spec fn view(&self) -> FactsView {
        FactsView {
            next_binding_id: self.next_binding_id,
            next_declaration_order: self.next_declaration_order,
            closures: closures_view(self.closures@),
            closure_spans: self.closure_spans@,
            moved: self.moved_bindings@,
            calls: self.closure_calls@,
            diagnostics: diagnostics_view(self.diagnostics@),
        }
    }
}

pub open spec fn joint(analyzer: Analyzer, state: WalkState) -> StateView {
    StateView { facts: analyzer@, walk: state@ }
}

impl Analyzer {
    fn new() -> (analyzer: Analyzer)
        ensures
            analyzer@ == FactsView::start(),
    {
        let analyzer = Analyzer {
            next_binding_id: 0,
            next_declaration_order: 0,
            closures: Vec::new(),
            closure_spans: Vec::new(),
            moved_bindings: IdMap::new(),
            closure_calls: IdMap::new(),
            diagnostics: Vec::new(),
        };
        assert(analyzer@.closures =~= Seq::empty());
        assert(analyzer@.diagnostics =~= Seq::empty());
        analyzer
    }

    fn error(&mut self, message: String, span: Span)
        ensures
            final(self)@ == old(self)@.with_error(message@, span),
    {
        push_error(&mut self.diagnostics, message, Some(span));
    }

    fn declare(
        &mut self,
        resolver: &ResolverContext,
        state: &mut WalkState,
        name: &str,
        span: Span,
        declared_type: &Option<TypeExpr>,
        inferred_type: Option<Type>,
        closure_values: Vec<u32>,
    )
        ensures
            joint(*final(self), *final(state)) == joint(*old(self), *old(state)).with_binding(
                resolver@,
                name@,
                span,
                type_expr_option_view(*declared_type),
                type_option_view(inferred_type),
                closure_values@,
            ),
    {
        let annotated = match declared_type {
            Some(ty) => resolve_type_expr_to_type(ty, resolver),
            None => None,
        };
        let resolved_type = match annotated {
            Some(ty) => Some(ty),
            None => inferred_type,
        };
        let binding = Binding {
            id: self.next_binding_id,
            name: name.to_owned(),
            declaration_span: span,
            declared_type: clone_type_expr_option(declared_type),
            resolved_type,
            declaration_order: self.next_declaration_order,
            closure_values,
        };
        self.next_binding_id = self.next_binding_id.wrapping_add(1);
        self.next_declaration_order = self.next_declaration_order.wrapping_add(1);
        assert(binding@ == old(self)@.new_binding(
            resolver@,
            name@,
            span,
            type_expr_option_view(*declared_type),
            type_option_view(inferred_type),
            closure_values@,
        ));
        state.declare(binding);
    }

    fn declare_params(
        &mut self,
        resolver: &ResolverContext,
        state: &mut WalkState,
        params: &Vec<Param>,
    )
        ensures
            joint(*final(self), *final(state)) == params_declared_from(
                resolver@,
                joint(*old(self), *old(state)),
                params@,
                0,
            ),
    {
        let mut i: usize = 0;
        while i < params.len()
            invariant
                i <= params.len(),
                params_declared_from(resolver@, joint(*self, *state), params@, i as int)
                    == params_declared_from(
                    resolver@,
                    joint(*old(self), *old(state)),
                    params@,
                    0,
                ),
            decreases params.len() - i,
        {
            let param = &params[i];
            self.declare(
                resolver,
                state,
                param.name.0.as_str(),
                param.span,
                &param.ty,
                None,
                Vec::new(),
            );
            i += 1;
        }
    }

    fn check_available(&mut self, binding: &Binding, span: Span)
        ensures
            final(self)@ == old(self)@.used(binding@, span),
    {
        if self.moved_bindings.contains_key(binding.id) {
            let mut message = concat3("use of moved value `", binding.name.as_str(), "`");
            match &binding.resolved_type {
                Some(ty) => {
                    let label = type_label(ty);
                    let text = concat3(" of type `", label.as_str(), "`");
                    message.append(text.as_str());
                },
                None => {
                    message.append("");
                },
            }
            self.error(message, span);
        }
    }

    fn reference_name(&mut self, state: &mut WalkState, name: &str, span: Span)
        ensures
            joint(*final(self), *final(state)) == joint(*old(self), *old(state)).referenced(
                name@,
                span,
            ),
    {
        match state.local_binding(name) {
            Some(binding) => {
                self.check_available(binding, span);
                return ;
            },
            None => {},
        }
        let outside = match state.outer_binding(name) {
            Some(binding) => Some(binding.clone()),
            None => None,
        };
        match outside {
            Some(binding) => {
                self.check_available(&binding, span);
                state.capture(binding, span);
                return ;
            },
            None => {},
        }
        let recursive = match &state.recursive_owner {
            Some((owner, _)) => same_text(owner.as_str(), name),
            None => false,
        };
        if recursive {
            let message = concat3(
                "recursive closure cycle through `",
                name,
                "` is not supported; initialize a non-recursive callable instead",
            );
            self.error(message, span);
        }
    }

    fn closure_values(&self, expr: &Expr, state: &WalkState) -> (values: Vec<u32>)
        ensures
            values@ == joint(*self, *state).closure_values(*expr),
    {
        let mut values: Vec<u32> = Vec::new();
        gather(&self.closure_spans, state, &mut values, expr);
        values
    }

    fn mark_escape(&mut self, expr: &Expr, state: &WalkState, kind: ClosureEscapeKind, span: Span)
        ensures
            joint(*final(self), *state) == joint(*old(self), *state).escaped(*expr, kind, span),
    {
        let ids = self.closure_values(expr, state);
        let escape = ClosureEscape { kind, span };
        let ghost start = self@.closures;
        let mut i: usize = 0;
        while i < ids.len()
            invariant
                i <= ids.len(),
                self@ == (FactsView { closures: self@.closures, ..old(self)@ }),
                escaped_from(self@.closures, ids@, escape, i as int) == escaped_from(
                    start,
                    ids@,
                    escape,
                    0,
                ),
            decreases ids.len() - i,
        {
            let ghost before = self@.closures;
            let k: usize = ids[i] as usize;
            if k < self.closures.len() {
                assert(before[k as int] == self.closures@[k as int]@);
                if !contains_escape(&self.closures[k].escapes, escape) {
                    self.closures[k].escapes.push(escape);
                }
                assert(self.closures@[k as int]@ == with_escape(before[k as int], escape));
                assert(self@.closures =~= before.update(
                    k as int,
                    with_escape(before[k as int], escape),
                ));
            }
            i += 1;
        }
    }

    fn record_calls(&mut self, callee: &Expr, state: &WalkState, span: Span)
        ensures
            joint(*final(self), *state) == joint(*old(self), *state).called(*callee, span),
    {
        let ids = self.closure_values(callee, state);
        let name = match callee {
            Expr::Ident(name, _) => concat3(" `", name.0.as_str(), "`"),
            _ => "".to_owned(),
        };
        let mut i: usize = 0;
        while i < ids.len()
            invariant
                i <= ids.len(),
                name@ == callee_text(*callee),
                called_from(self@, ids@, name@, span, i as int) == called_from(
                    old(self)@,
                    ids@,
                    name@,
                    span,
                    0,
                ),
            decreases ids.len() - i,
        {
            if self.closure_calls.contains_key(ids[i]) {
                let message = concat3(
                    "use of moved FnOnce closure",
                    name.as_str(),
                    "; closure values can be called once",
                );
                self.error(message, span);
            }
            self.closure_calls.insert(ids[i], span);
            i += 1;
        }
    }

    fn assign(
        &mut self,
        state: &mut WalkState,
        name: &str,
        values: Vec<u32>,
        inferred_type: Option<Type>,
    )
        ensures
            joint(*final(self), *final(state)) == joint(*old(self), *old(state)).assigned(
                name@,
                values@,
                type_option_view(inferred_type),
            ),
    {
        match state.local_position(name) {
            Some((s, j)) => {
                let ghost before = state@.scopes;
                let binding = &state.scopes[s][j];
                assert(before[s as int] == bindings_view(state.scopes@[s as int]@));
                assert(before[s as int][j as int] == binding@);
                let resolved_type = match &binding.resolved_type {
                    Some(ty) => Some(ty.clone()),
                    None => inferred_type,
                };
                let updated = Binding {
                    id: binding.id,
                    name: binding.name.clone(),
                    declaration_span: binding.declaration_span,
                    declared_type: clone_type_expr_option(&binding.declared_type),
                    resolved_type,
                    declaration_order: binding.declaration_order,
                    closure_values: values,
                };
                let ghost model = updated@;
                state.scopes[s][j] = updated;
                assert(bindings_view(state.scopes@[s as int]@) =~= before[s as int].update(
                    j as int,
                    model,
                ));
                assert(state@.scopes =~= before.update(
                    s as int,
                    before[s as int].update(j as int, model),
                ));
            },
            None => {},
        }
    }
}

fn contains_escape(escapes: &Vec<ClosureEscape>, escape: ClosureEscape) -> (found: bool)
    ensures
        found == escapes@.contains(escape),
{
    let mut i: usize = 0;
    while i < escapes.len()
        invariant
            i <= escapes.len(),
            forall|j: int| 0 <= j < i ==> escapes@[j] != escape,
        decreases escapes.len() - i,
    {
        if escapes[i] == escape {
            return true;
        }
        i += 1;
    }
    false
}

fn is_container_insert(method: &str) -> (insert: bool)
    ensures
        insert == inserts(method@),
{
    same_text(method, "push") || same_text(method, "insert") || same_text(method, "add")
        || same_text(method, "update") || same_text(method, "set")
}

impl Analyzer {
    fn visit_block(
        &mut self,
        resolver: &ResolverContext,
        block: &Block,
        state: &mut WalkState,
        scoped: bool,
        tail_returns: bool,
    )
        ensures
            joint(*final(self), *final(state)) == after_block(
                resolver@,
                *block,
                joint(*old(self), *old(state)),
                scoped,
                tail_returns,
            ),
        decreases block, 1nat,
    {
        if scoped {
            state.push_scope();
        }
        let ghost entered = joint(*self, *state);
        let mut i: usize = 0;
        while i < block.stmts.len()
            invariant
                i <= block.stmts.len(),
                after_stmts_from(
                    resolver@,
                    block.stmts@,
                    joint(*self, *state),
                    tail_returns,
                    i as int,
                ) == after_stmts_from(resolver@, block.stmts@, entered, tail_returns, 0),
            decreases block.stmts.len() - i,
        {
            let last = i == block.stmts.len() - 1;
            self.visit_stmt(resolver, &block.stmts[i], state, tail_returns && last);
            i += 1;
        }
        if scoped {
            state.pop_scope();
        }
    }

    fn visit_stmt(
        &mut self,
        resolver: &ResolverContext,
        stmt: &Stmt,
        state: &mut WalkState,
        implicit_return: bool,
    )
        ensures
            joint(*final(self), *final(state)) == after_stmt(
                resolver@,
                *stmt,
                joint(*old(self), *old(state)),
                implicit_return,
            ),
        decreases stmt, 0nat,
    {
        match stmt {
            Stmt::Expr(expr, span) => {
                self.visit_expr(resolver, expr, state, None);
                if implicit_return {
                    self.mark_escape(expr, state, ClosureEscapeKind::Return, *span);
                }
            },
            Stmt::Ret(expr, span) => match expr {
                Some(expr) => {
                    self.visit_expr(resolver, expr, state, None);
                    self.mark_escape(expr, state, ClosureEscapeKind::Return, *span);
                },
                None => {},
            },
            Stmt::Let { name, ty, value, span, .. } => match value {
                // The initializer is evaluated before the binding enters scope.
                // Passing the upcoming name lets us reject `let f = () -> f()`
                // rather than treating it as a function item.
                Some(value) => {
                    let owner = Some((name.0.clone(), None));
                    self.visit_expr(resolver, value, state, owner);
                    let closure_values = self.closure_values(value, state);
                    let inferred_type = infer_expr_type(resolver, value, state);
                    self.declare(
                        resolver,
                        state,
                        name.0.as_str(),
                        *span,
                        ty,
                        inferred_type,
                        closure_values,
                    );
                },
                None => {
                    self.declare(
                        resolver,
                        state,
                        name.0.as_str(),
                        *span,
                        ty,
                        None,
                        Vec::new(),
                    );
                },
            },
            Stmt::Assign { target, value, span } => {
                self.visit_expr(resolver, target, state, None);
                let owner = match target {
                    Expr::Ident(name, _) => match state.visible_binding(name.0.as_str()) {
                        Some(binding) => Some((name.0.clone(), Some(binding.id))),
                        None => None,
                    },
                    _ => None,
                };
                self.visit_expr(resolver, value, state, owner);
                match target {
                    Expr::Ident(name, _) => {
                        let closure_values = self.closure_values(value, state);
                        let inferred_type = infer_expr_type(resolver, value, state);
                        self.assign(state, name.0.as_str(), closure_values, inferred_type);
                    },
                    Expr::FieldAccess { .. } => {
                        self.mark_escape(value, state, ClosureEscapeKind::Storage, *span);
                    },
                    Expr::Index { .. } => {
                        self.mark_escape(value, state, ClosureEscapeKind::Storage, *span);
                    },
                    _ => {},
                }
            },
            Stmt::Break(_) => {},
            Stmt::Continue(_) => {},
        }
    }

    fn visit_expr(
        &mut self,
        resolver: &ResolverContext,
        expr: &Expr,
        state: &mut WalkState,
        recursive_owner: Option<(String, Option<u32>)>,
    )
        ensures
            joint(*final(self), *final(state)) == after_expr(
                resolver@,
                *expr,
                joint(*old(self), *old(state)),
                owner_view(recursive_owner),
            ),
        decreases expr, 0nat,
    {
        match expr {
            Expr::Lit(_, _) => {},
            Expr::InterpString { segments, .. } => self.visit_segments(resolver, segments, state),
            Expr::Ident(name, span) => self.reference_name(state, name.0.as_str(), *span),
            Expr::Unary { expr, .. } => self.visit_expr(resolver, expr, state, None),
            Expr::Try { expr, .. } => self.visit_expr(resolver, expr, state, None),
            Expr::Cast { expr, .. } => self.visit_expr(resolver, expr, state, None),
            Expr::Ref { expr, .. } => self.visit_expr(resolver, expr, state, None),
            Expr::Binary { lhs, rhs, .. } => {
                self.visit_expr(resolver, lhs, state, None);
                self.visit_expr(resolver, rhs, state, None);
            },
            Expr::Call { callee, args, span } => {
                self.visit_expr(resolver, callee, state, None);
                self.record_calls(callee, state, *span);
                self.visit_stored(resolver, args, state, ClosureEscapeKind::Transfer, *span);
            },
            Expr::If { cond, then_block, else_block, .. } => {
                self.visit_expr(resolver, cond, state, None);
                self.visit_block(resolver, then_block, state, true, false);
                match else_block {
                    Some(block) => self.visit_block(resolver, block, state, true, false),
                    None => {},
                }
            },
            Expr::Block(block) => self.visit_block(resolver, block, state, true, false),
            Expr::StructLit { fields, span, .. } => self.visit_fields(
                resolver,
                fields,
                state,
                *span,
            ),
            Expr::FieldAccess { base, .. } => self.visit_expr(resolver, base, state, None),
            Expr::While { cond, body, .. } => {
                self.visit_expr(resolver, cond, state, None);
                self.visit_block(resolver, body, state, true, false);
            },
            Expr::For { var, start, end, body, span } => {
                self.visit_expr(resolver, start, state, None);
                self.visit_expr(resolver, end, state, None);
                state.push_scope();
                self.declare(
                    resolver,
                    state,
                    var.0.as_str(),
                    *span,
                    &None,
                    Some(Type::I32),
                    Vec::new(),
                );
                self.visit_block(resolver, body, state, false, false);
                state.pop_scope();
            },
            Expr::ForIn { var, iter, body, span } => {
                self.visit_expr(resolver, iter, state, None);
                let element = match infer_expr_type(resolver, iter, state) {
                    Some(ty) => element_type(&ty),
                    None => None,
                };
                state.push_scope();
                self.declare(
                    resolver,
                    state,
                    var.0.as_str(),
                    *span,
                    &None,
                    element,
                    Vec::new(),
                );
                self.visit_block(resolver, body, state, false, false);
                state.pop_scope();
            },
            Expr::ArrayLit { elements, span } => self.visit_stored(
                resolver,
                elements,
                state,
                ClosureEscapeKind::Storage,
                *span,
            ),
            Expr::Tuple { elements, span } => self.visit_stored(
                resolver,
                elements,
                state,
                ClosureEscapeKind::Storage,
                *span,
            ),
            Expr::Index { base, index, .. } => {
                self.visit_expr(resolver, base, state, None);
                self.visit_expr(resolver, index, state, None);
            },
            Expr::MethodCall { receiver, method, args, span } => {
                self.visit_expr(resolver, receiver, state, None);
                let kind = if is_container_insert(method.0.as_str()) {
                    ClosureEscapeKind::ContainerInsertion
                } else {
                    ClosureEscapeKind::Transfer
                };
                self.visit_stored(resolver, args, state, kind, *span);
            },
            Expr::Match { scrutinee, arms, .. } => {
                self.visit_expr(resolver, scrutinee, state, None);
                self.visit_arms(resolver, arms, state);
            },
            Expr::Closure { capture, params, body, span } => {
                let visible = state.visible_bindings();
                let captures = self.analyze_closure(
                    resolver,
                    *capture,
                    params,
                    body,
                    *span,
                    visible,
                    recursive_owner,
                );
                absorb_captures(state, &captures);
            },
        }
    }

    fn visit_segments(
        &mut self,
        resolver: &ResolverContext,
        segments: &Vec<InterpSegment>,
        state: &mut WalkState,
    )
        ensures
            joint(*final(self), *final(state)) == after_segments_from(
                resolver@,
                segments@,
                joint(*old(self), *old(state)),
                0,
            ),
        decreases segments, 0nat,
    {
        let mut i: usize = 0;
        while i < segments.len()
            invariant
                i <= segments.len(),
                after_segments_from(resolver@, segments@, joint(*self, *state), i as int)
                    == after_segments_from(
                    resolver@,
                    segments@,
                    joint(*old(self), *old(state)),
                    0,
                ),
            decreases segments.len() - i,
        {
            match &segments[i] {
                InterpSegment::Expr(expr) => self.visit_expr(resolver, expr, state, None),
                _ => {},
            }
            i += 1;
        }
    }

    fn visit_stored(
        &mut self,
        resolver: &ResolverContext,
        exprs: &Vec<Expr>,
        state: &mut WalkState,
        kind: ClosureEscapeKind,
        span: Span,
    )
        ensures
            joint(*final(self), *final(state)) == after_stored_from(
                resolver@,
                exprs@,
                joint(*old(self), *old(state)),
                kind,
                span,
                0,
            ),
        decreases exprs, 0nat,
    {
        let mut i: usize = 0;
        while i < exprs.len()
            invariant
                i <= exprs.len(),
                after_stored_from(
                    resolver@,
                    exprs@,
                    joint(*self, *state),
                    kind,
                    span,
                    i as int,
                ) == after_stored_from(
                    resolver@,
                    exprs@,
                    joint(*old(self), *old(state)),
                    kind,
                    span,
                    0,
                ),
            decreases exprs.len() - i,
        {
            self.visit_expr(resolver, &exprs[i], state, None);
            self.mark_escape(&exprs[i], state, kind, span);
            i += 1;
        }
    }

    fn visit_fields(
        &mut self,
        resolver: &ResolverContext,
        fields: &Vec<(Ident, Expr)>,
        state: &mut WalkState,
        span: Span,
    )
        ensures
            joint(*final(self), *final(state)) == after_fields_from(
                resolver@,
                fields@,
                joint(*old(self), *old(state)),
                span,
                0,
            ),
        decreases fields, 0nat,
    {
        let mut i: usize = 0;
        while i < fields.len()
            invariant
                i <= fields.len(),
                after_fields_from(resolver@, fields@, joint(*self, *state), span, i as int)
                    == after_fields_from(
                    resolver@,
                    fields@,
                    joint(*old(self), *old(state)),
                    span,
                    0,
                ),
            decreases fields.len() - i,
        {
            self.visit_expr(resolver, &fields[i].1, state, None);
            self.mark_escape(&fields[i].1, state, ClosureEscapeKind::Storage, span);
            i += 1;
        }
    }

    fn visit_arms(
        &mut self,
        resolver: &ResolverContext,
        arms: &Vec<MatchArm>,
        state: &mut WalkState,
    )
        ensures
            joint(*final(self), *final(state)) == after_arms_from(
                resolver@,
                arms@,
                joint(*old(self), *old(state)),
                0,
            ),
        decreases arms, 0nat,
    {
        let mut i: usize = 0;
        while i < arms.len()
            invariant
                i <= arms.len(),
                after_arms_from(resolver@, arms@, joint(*self, *state), i as int)
                    == after_arms_from(resolver@, arms@, joint(*old(self), *old(state)), 0),
            decreases arms.len() - i,
        {
            let arm = &arms[i];
            state.push_scope();
            match &arm.pattern {
                MatchPattern::Variant { binding: Some(binding), .. } => {
                    self.declare(
                        resolver,
                        state,
                        binding.0.as_str(),
                        arm.span,
                        &None,
                        None,
                        Vec::new(),
                    );
                },
                _ => {},
            }
            self.visit_expr(resolver, &arm.expr, state, None);
            state.pop_scope();
            i += 1;
        }
    }

    fn analyze_closure(
        &mut self,
        resolver: &ResolverContext,
        capture_mode: CaptureMode,
        params: &Vec<Param>,
        body: &Expr,
        span: Span,
        outer_visible: Vec<Binding>,
        recursive_owner: Option<(String, Option<u32>)>,
    ) -> (captures: Vec<CapturedBinding>)
        ensures
            ({
                let inside = after_closure_body(
                    resolver@,
                    params@,
                    *body,
                    span,
                    StateView {
                        facts: opened(old(self)@, span, capture_mode),
                        walk: WalkView::start(
                            bindings_view(outer_visible@),
                            owner_view(recursive_owner),
                        ),
                    },
                );
                &&& captured_view(captures@) == ordered(inside.walk.captures)
                &&& final(self)@ == closed(
                    resolver@,
                    inside.facts,
                    old(self)@.closures.len() as int,
                    captured_view(captures@),
                    capture_mode,
                    span,
                    owner_view(recursive_owner),
                )
            }),
        decreases body, 2nat,
    {
        let index: usize = self.closures.len();
        self.open_closure(span, capture_mode);
        let owner = match &recursive_owner {
            Some((name, id)) => Some((name.clone(), *id)),
            None => None,
        };
        let mut state = WalkState::for_closure(outer_visible, owner);
        self.visit_closure_body(resolver, params, body, span, &mut state);
        let captures = state.ordered_captures();
        self.close_closure(resolver, index, &captures, capture_mode, span, &recursive_owner);
        captures
    }

    fn visit_closure_body(
        &mut self,
        resolver: &ResolverContext,
        params: &Vec<Param>,
        body: &Expr,
        span: Span,
        state: &mut WalkState,
    )
        ensures
            joint(*final(self), *final(state)) == after_closure_body(
                resolver@,
                params@,
                *body,
                span,
                joint(*old(self), *old(state)),
            ),
        decreases body, 1nat,
    {
        self.declare_params(resolver, state, params);
        match body {
            Expr::Block(block) => self.visit_block(resolver, block, state, true, true),
            _ => {
                self.visit_expr(resolver, body, state, None);
                self.mark_escape(body, state, ClosureEscapeKind::Return, span);
            },
        }
    }

    fn open_closure(&mut self, span: Span, capture_mode: CaptureMode)
        ensures
            final(self)@ == opened(old(self)@, span, capture_mode),
    {
        let closure_id = self.closures.len() as u32;
        self.closure_spans.push((span, closure_id));
        let info = ClosureInfo {
            closure_id,
            span,
            capture_mode,
            is_fn_once: true,
            captures: Vec::new(),
            escapes: Vec::new(),
        };
        assert(info@.captures =~= Seq::empty());
        self.closures.push(info);
        assert(self@.closures =~= opened(old(self)@, span, capture_mode).closures);
    }

    fn check_cycle(
        &mut self,
        captures: &Vec<CapturedBinding>,
        recursive_owner: &Option<(String, Option<u32>)>,
    )
        ensures
            final(self)@ == cycle_checked(
                old(self)@,
                captured_view(captures@),
                owner_view(*recursive_owner),
            ),
    {
        match recursive_owner {
            Some((name, Some(id))) => {
                let ghost views = captured_view(captures@);
                let mut i: usize = 0;
                while i < captures.len()
                    invariant
                        i <= captures.len(),
                        views == captured_view(captures@),
                        self@ == old(self)@,
                        owner_view(*recursive_owner) == Some((name@, Some(*id))),
                        capture_of(views, *id, i as int) == capture_of(views, *id, 0),
                    decreases captures.len() - i,
                {
                    assert(views[i as int] == captures[i as int]@);
                    if captures[i].binding.id == *id {
                        let message = concat3(
                            "recursive closure cycle through `",
                            name.as_str(),
                            "` is not supported in v1",
                        );
                        self.error(message, captures[i].first_use_span);
                        return ;
                    }
                    i += 1;
                }
            },
            _ => {},
        }
    }

    fn close_closure(
        &mut self,
        resolver: &ResolverContext,
        index: usize,
        captures: &Vec<CapturedBinding>,
        capture_mode: CaptureMode,
        span: Span,
        recursive_owner: &Option<(String, Option<u32>)>,
    )
        ensures
            final(self)@ == closed(
                resolver@,
                old(self)@,
                index as int,
                captured_view(captures@),
                capture_mode,
                span,
                owner_view(*recursive_owner),
            ),
    {
        self.check_cycle(captures, recursive_owner);
        let ghost checked = self@;
        let public = describe_captures(resolver, captures, capture_mode);
        let ghost views = closure_captures_view(public@);
        let mut i: usize = 0;
        while i < public.len()
            invariant
                i <= public.len(),
                views == closure_captures_view(public@),
                self@ == (FactsView { moved: self@.moved, ..checked }),
                moved_from(self@.moved, views, span, i as int) == moved_from(
                    checked.moved,
                    views,
                    span,
                    0,
                ),
            decreases public.len() - i,
        {
            assert(views[i as int] == public[i as int]@);
            if public[i].ownership == CaptureOwnership::Move
                && !self.moved_bindings.contains_key(public[i].binding_id) {
                self.moved_bindings.insert(public[i].binding_id, span);
            }
            i += 1;
        }
        let ghost before = self@.closures;
        if index < self.closures.len() {
            assert(before[index as int] == self.closures@[index as int]@);
            self.closures[index].captures = public;
            assert(self@.closures =~= before.update(
                index as int,
                ClosureInfoView { captures: views, ..before[index as int] },
            ));
        }
    }

    fn finish(self) -> (analysis: ClosureAnalysis)
        ensures
            analysis@ == (ClosureAnalysisView {
                closures: self@.closures,
                diagnostics: escape_errors_from(self@.diagnostics, self@.closures, 0),
            }),
    {
        let mut diagnostics = self.diagnostics;
        let closures = self.closures;
        let ghost views = closures_view(closures@);
        let ghost start = diagnostics_view(diagnostics@);
        let mut i: usize = 0;
        while i < closures.len()
            invariant
                i <= closures.len(),
                views == closures_view(closures@),
                escape_errors_from(diagnostics_view(diagnostics@), views, i as int)
                    == escape_errors_from(start, views, 0),
            decreases closures.len() - i,
        {
            assert(views[i as int] == closures[i as int]@);
            let closure = &closures[i];
            if closure.escapes.len() > 0 {
                report_borrowed_escapes(
                    &mut diagnostics,
                    &closure.captures,
                    closure.escapes[0].kind,
                );
            }
            i += 1;
        }
        ClosureAnalysis { closures, diagnostics }
    }
}

fn absorb_captures(state: &mut WalkState, captures: &Vec<CapturedBinding>)
    ensures
        final(state)@ == old(state)@.absorbed_from(captured_view(captures@), 0),
{
    let ghost views = captured_view(captures@);
    let mut i: usize = 0;
    while i < captures.len()
        invariant
            i <= captures.len(),
            views == captured_view(captures@),
            state@.absorbed_from(views, i as int) == old(state)@.absorbed_from(views, 0),
        decreases captures.len() - i,
    {
        assert(views[i as int] == captures[i as int]@);
        state.absorb_nested_capture(&captures[i]);
        i += 1;
    }
}

fn describe_captures(
    resolver: &ResolverContext,
    captures: &Vec<CapturedBinding>,
    capture_mode: CaptureMode,
) -> (public: Vec<ClosureCapture>)
    ensures
        closure_captures_view(public@) == all_capture_facts(
            resolver@,
            captured_view(captures@),
            capture_mode,
        ),
{
    let mut public: Vec<ClosureCapture> = Vec::new();
    let mut i: usize = 0;
    while i < captures.len()
        invariant
            i <= captures.len(),
            public.len() == i,
            forall|j: int|
                0 <= j < i ==> (#[trigger] public[j])@ == capture_facts(
                    resolver@,
                    captures[j]@,
                    capture_mode,
                ),
        decreases captures.len() - i,
    {
        public.push(describe_capture(resolver, &captures[i], capture_mode));
        i += 1;
    }
    assert(closure_captures_view(public@) =~= all_capture_facts(
        resolver@,
        captured_view(captures@),
        capture_mode,
    ));
    public
}

fn describe_capture(
    resolver: &ResolverContext,
    capture: &CapturedBinding,
    capture_mode: CaptureMode,
) -> (public: ClosureCapture)
    ensures
        public@ == capture_facts(resolver@, capture@, capture_mode),
{
    let binding = &capture.binding;
    let mut visiting: Vec<VisitKey> = Vec::new();
    assert(visits(visiting@) =~= Seq::empty());
    let (borrowed, copied) = match &binding.resolved_type {
        Some(ty) => (
            type_is_transitively_borrowed(resolver, ty, &mut visiting),
            type_is_copy(ty),
        ),
        None => (false, false),
    };
    // Unknown types are conservatively treated as owned. This prevents a later
    // inferred aggregate from being aliased.
    let ownership = if copied {
        CaptureOwnership::Copy
    } else {
        CaptureOwnership::Move
    };
    ClosureCapture {
        binding_id: binding.id,
        name: binding.name.clone(),
        declaration_span: binding.declaration_span,
        first_use_span: capture.first_use_span,
        declared_type: clone_type_expr_option(&binding.declared_type),
        resolved_type: clone_type_option(&binding.resolved_type),
        ownership,
        explicit_move: capture_mode == CaptureMode::Move,
        transitively_borrowed: borrowed,
    }
}

fn report_borrowed_escapes(
    diagnostics: &mut Vec<Diagnostic>,
    captures: &Vec<ClosureCapture>,
    kind: ClosureEscapeKind,
)
    ensures
        diagnostics_view(final(diagnostics)@) == borrow_errors_from(
            diagnostics_view(old(diagnostics)@),
            closure_captures_view(captures@),
            kind,
            0,
        ),
{
    let ghost views = closure_captures_view(captures@);
    let ghost start = diagnostics_view(diagnostics@);
    let mut i: usize = 0;
    while i < captures.len()
        invariant
            i <= captures.len(),
            views == closure_captures_view(captures@),
            borrow_errors_from(diagnostics_view(diagnostics@), views, kind, i as int)
                == borrow_errors_from(start, views, kind, 0),
        decreases captures.len() - i,
    {
        assert(views[i as int] == captures[i as int]@);
        if captures[i].transitively_borrowed {
            let mut message = concat3(
                "borrowed capture `",
                captures[i].name.as_str(),
                "` cannot escape through ",
            );
            message.append(escape_label(kind));
            message.append("; capture owned data instead");
            push_error(diagnostics, message, Some(captures[i].first_use_span));
        }
        i += 1;
    }
}

/// Run closure analysis with resolved type metadata.
pub fn analyze_function_closure_ownership(
    function: &Function,
    resolver: &ResolverContext,
) -> (analysis: ClosureAnalysis)
    ensures
        analysis@ == function_analysis(resolver@, *function),
{
    let mut analyzer = Analyzer::new();
    let mut state = WalkState::top_level();
    analyzer.declare_params(resolver, &mut state, &function.params);
    analyzer.visit_block(resolver, &function.body, &mut state, false, true);
    analyzer.finish()
}

/// Compatibility entry point for lexical-only callers. Prefer
/// `analyze_function_closure_ownership` when a resolver is available.
pub fn analyze_function_closures(function: &Function) -> (closures: Vec<ClosureInfo>)
    ensures
        closures_view(closures@) == function_analysis(ResolverFacts::none(), *function).closures,
{
    analyze_function_closure_ownership(function, &ResolverContext::default()).closures
}

} // verus!
