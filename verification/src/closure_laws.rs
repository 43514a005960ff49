//! What holds of closure analysis as a whole.

use vstd::prelude::*;

use crate::ast::{
    Block, CaptureMode, Expr, Function, Ident, InterpSegment, MatchArm, Param, Stmt, TypeExprView,
};
use crate::closure_analysis::{
    after_arms_from, after_block, after_closure_body, after_expr, after_fields_from,
    after_function, after_segments_from, after_stmt, after_stmts_from, after_stored_from,
    all_capture_facts, argument_escape, arm_binding, assignment_owner, borrow_errors_from,
    called_from, callee_text, capture_facts, closed, copyable, cycle_checked, element_of,
    escape_errors_from, escape_text, escaped_from, first_named, function_analysis, holds_borrowed,
    inferred, innermost_named, last_named, moved_from, opened, ordered, params_declared_from,
    placed_by_order, sorted_from, type_expr_option_view, with_escape, with_scope_from,
    with_scopes_from, with_visible, BindingView, CaptureOwnership, CapturedBindingView,
    ClosureCaptureView, ClosureEscape, ClosureEscapeKind, ClosureInfoView, FactsView, StateView,
    WalkView,
};
use crate::diag::{error_view, DiagnosticView, Span};
use crate::resolver::ResolverFacts;
use crate::table::{has_key, key_position, key_position_is_first, with_entry};
use crate::types::TypeView;

verus! {

/// Bindings are numbered in the order of their declaration.
pub open spec fn in_order(binding: BindingView) -> bool {
    binding.id == binding.declaration_order
}

pub open spec fn all_in_order(bindings: Seq<BindingView>) -> bool {
    forall|i: int| 0 <= i < bindings.len() ==> in_order(#[trigger] bindings[i])
}

/// Different captures are of different bindings.
pub open spec fn distinct_captures(captures: Seq<CapturedBindingView>) -> bool {
    forall|i: int, j: int|
        0 <= i < j < captures.len() ==> (#[trigger] captures[i]).binding.id != (
        #[trigger] captures[j]).binding.id
}

pub open spec fn captures_in_order(captures: Seq<CapturedBindingView>) -> bool {
    forall|i: int| 0 <= i < captures.len() ==> in_order((#[trigger] captures[i]).binding)
}

/// Captures stand in the order of their declaration.
pub open spec fn increasing(captures: Seq<CapturedBindingView>) -> bool {
    forall|i: int, j: int|
        0 <= i < j < captures.len() ==> (#[trigger] captures[i]).binding.declaration_order < (
        #[trigger] captures[j]).binding.declaration_order
}

impl WalkView {
    pub open spec fn is_sound(self) -> bool {
        &&& forall|s: int| 0 <= s < self.scopes.len() ==> all_in_order(#[trigger] self.scopes[s])
        &&& all_in_order(self.outer_visible)
        &&& captures_in_order(self.captures)
        &&& distinct_captures(self.captures)
    }
}

/// What the record of the closure with number `index` says of its captures:
/// each binding is captured once, in the order of declaration, and by copy
/// exactly where its type is known to be copyable; and of its escapes: each of
/// them stands there once.
pub open spec fn well_recorded(
    resolver: ResolverFacts,
    info: ClosureInfoView,
    index: int,
) -> bool {
    &&& info.closure_id == index as u32
    &&& info.is_fn_once
    &&& info.escapes.no_duplicates()
    &&& forall|i: int, j: int|
        0 <= i < j < info.captures.len() ==> (#[trigger] info.captures[i]).binding_id < (
        #[trigger] info.captures[j]).binding_id
    &&& forall|i: int|
        0 <= i < info.captures.len() ==> {
            let capture = #[trigger] info.captures[i];
            let ty = capture.resolved_type;
            &&& capture.explicit_move == (info.capture_mode == CaptureMode::Move)
            &&& capture.ownership == CaptureOwnership::Copy <==> ty is Some && copyable(ty->0)
            &&& capture.transitively_borrowed <==> ty is Some && holds_borrowed(
                resolver,
                ty->0,
                Seq::empty(),
            )
        }
}

impl StateView {
    pub open spec fn is_sound(self, resolver: ResolverFacts) -> bool {
        &&& self.walk.is_sound()
        &&& self.facts.next_binding_id == self.facts.next_declaration_order
        &&& forall|i: int|
            0 <= i < self.facts.closures.len() ==> well_recorded(
                resolver,
                #[trigger] self.facts.closures[i],
                i,
            )
    }
}

/// Whether two records are of one closure, and the later one has forgotten no
/// escape.
pub open spec fn same_closure(earlier: ClosureInfoView, later: ClosureInfoView) -> bool {
    &&& later.closure_id == earlier.closure_id
    &&& later.span == earlier.span
    &&& later.capture_mode == earlier.capture_mode
    &&& later.is_fn_once == earlier.is_fn_once
    &&& earlier.escapes.is_prefix_of(later.escapes)
}

impl FactsView {
    /// Whether later findings hold on to these: closures keep their identity
    /// and their escapes, a moved binding stays moved, a closure that was called
    /// stays called, and no report is taken back.
    pub open spec fn is_kept_by(self, later: FactsView) -> bool {
        &&& self.closures.len() <= later.closures.len()
        &&& forall|i: int|
            0 <= i < self.closures.len() ==> same_closure(
                #[trigger] self.closures[i],
                later.closures[i],
            )
        &&& forall|id: u32| has_key(self.moved, id) ==> #[trigger] has_key(later.moved, id)
        &&& forall|id: u32| has_key(self.calls, id) ==> #[trigger] has_key(later.calls, id)
        &&& self.diagnostics.is_prefix_of(later.diagnostics)
    }
}

/// Whether a step of the walk keeps what was found and what holds of it.
pub open spec fn keeps(resolver: ResolverFacts, before: StateView, after: StateView) -> bool {
    &&& before.is_sound(resolver) ==> after.is_sound(resolver)
    &&& before.facts.is_kept_by(after.facts)
}

proof fn keeping_carries_over(
    resolver: ResolverFacts,
    first: StateView,
    second: StateView,
    third: StateView,
)
    requires
        keeps(resolver, first, second),
        keeps(resolver, second, third),
    ensures
        keeps(resolver, first, third),
{
    assert forall|i: int| 0 <= i < first.facts.closures.len() implies same_closure(
        #[trigger] first.facts.closures[i],
        third.facts.closures[i],
    ) by {
        assert(same_closure(first.facts.closures[i], second.facts.closures[i]));
        assert(same_closure(second.facts.closures[i], third.facts.closures[i]));
    }
    assert forall|id: u32| has_key(first.facts.moved, id) implies #[trigger] has_key(
        third.facts.moved,
        id,
    ) by {
        assert(has_key(second.facts.moved, id));
    }
    assert forall|id: u32| has_key(first.facts.calls, id) implies #[trigger] has_key(
        third.facts.calls,
        id,
    ) by {
        assert(has_key(second.facts.calls, id));
    }
}

proof fn stored_keys_stay<W>(entries: Seq<(u32, W)>, key: u32, value: W, other: u32)
    ensures
        has_key(with_entry(entries, key, value), key),
        has_key(entries, other) ==> has_key(with_entry(entries, key, value), other),
        !has_key(entries, other) && other != key ==> !has_key(
            with_entry(entries, key, value),
            other,
        ),
{
    let put = with_entry(entries, key, value);
    key_position_is_first(entries, key, 0);
    key_position_is_first(entries, other, 0);
    key_position_is_first(put, key, 0);
    key_position_is_first(put, other, 0);
    match key_position(entries, key, 0) {
        Some(p) => assert(put[p].0 == key),
        None => assert(put[entries.len() as int].0 == key),
    }
    match key_position(entries, other, 0) {
        Some(p) => assert(put[p].0 == other),
        None => {
            match key_position(put, other, 0) {
                Some(q) => {
                    if other != key {
                        assert(q < entries.len());
                        assert(entries[q].0 == other);
                    }
                },
                None => {},
            }
        },
    }
}

pub(crate) proof fn first_named_is_in_range(bindings: Seq<BindingView>, name: Seq<char>, i: int)
    ensures
        first_named(bindings, name, i) matches Some(p) ==> 0 <= p < bindings.len(),
    decreases bindings.len() - i,
{
    if 0 <= i < bindings.len() && bindings[i].name != name {
        first_named_is_in_range(bindings, name, i + 1);
    }
}

proof fn last_named_is_in_range(scope: Seq<BindingView>, name: Seq<char>, j: int)
    ensures
        last_named(scope, name, j) matches Some(p) ==> 0 <= p < scope.len(),
    decreases j,
{
    if 0 < j <= scope.len() && scope[j - 1].name != name {
        last_named_is_in_range(scope, name, j - 1);
    }
}

pub(crate) proof fn innermost_named_is_in_range(scopes: Seq<Seq<BindingView>>, name: Seq<char>, s: int)
    ensures
        innermost_named(scopes, name, s) matches Some(p) ==> 0 <= p.0 < scopes.len() && 0 <= p.1
            < scopes[p.0].len(),
    decreases s,
{
    if 0 < s <= scopes.len() {
        last_named_is_in_range(scopes[s - 1], name, scopes[s - 1].len() as int);
        innermost_named_is_in_range(scopes, name, s - 1);
    }
}

proof fn visible_scope_is_in_order(visible: Seq<BindingView>, scope: Seq<BindingView>, i: int)
    requires
        all_in_order(visible),
        all_in_order(scope),
    ensures
        all_in_order(with_scope_from(visible, scope, i)),
    decreases scope.len() - i,
{
    if 0 <= i < scope.len() {
        first_named_is_in_range(visible, scope[i].name, 0);
        visible_scope_is_in_order(with_visible(visible, scope[i]), scope, i + 1);
    }
}

proof fn visible_scopes_are_in_order(
    visible: Seq<BindingView>,
    scopes: Seq<Seq<BindingView>>,
    s: int,
)
    requires
        all_in_order(visible),
        forall|k: int| 0 <= k < scopes.len() ==> all_in_order(#[trigger] scopes[k]),
    ensures
        all_in_order(with_scopes_from(visible, scopes, s)),
    decreases scopes.len() - s,
{
    if 0 <= s < scopes.len() {
        visible_scope_is_in_order(visible, scopes[s], 0);
        visible_scopes_are_in_order(with_scope_from(visible, scopes[s], 0), scopes, s + 1);
    }
}

/// One more capture is placed into an increasing list.
proof fn placing_keeps_the_order(
    sorted: Seq<CapturedBindingView>,
    capture: CapturedBindingView,
    i: int,
)
    requires
        0 <= i <= sorted.len(),
        increasing(sorted),
        forall|k: int|
            0 <= k < sorted.len() ==> (#[trigger] sorted[k]).binding.declaration_order
                != capture.binding.declaration_order,
        forall|k: int|
            0 <= k < i ==> (#[trigger] sorted[k]).binding.declaration_order
                < capture.binding.declaration_order,
    ensures
        increasing(placed_by_order(sorted, capture, i)),
        forall|c: CapturedBindingView|
            #[trigger] placed_by_order(sorted, capture, i).contains(c) <==> c == capture
                || sorted.contains(c),
    decreases sorted.len() - i,
{
    let placed = placed_by_order(sorted, capture, i);
    if i >= sorted.len() {
        assert forall|c: CapturedBindingView| #[trigger] placed.contains(c) <==> c == capture
            || sorted.contains(c) by {
            assert(placed[sorted.len() as int] == capture);
            if sorted.contains(c) {
                let k = choose|k: int| 0 <= k < sorted.len() && sorted[k] == c;
                assert(placed[k] == c);
            }
            if placed.contains(c) && c != capture {
                let k = choose|k: int| 0 <= k < placed.len() && placed[k] == c;
                assert(sorted[k] == c);
            }
        }
    } else if sorted[i].binding.declaration_order > capture.binding.declaration_order {
        assert forall|a: int, b: int| 0 <= a < b < placed.len() implies (
        #[trigger] placed[a]).binding.declaration_order < (
        #[trigger] placed[b]).binding.declaration_order by {
            let low = if a < i { a } else { a - 1 };
            let high = if b < i { b } else { b - 1 };
            if a == i {
                assert(sorted[i].binding.declaration_order
                    <= sorted[high].binding.declaration_order);
            } else if b == i {
                assert(placed[a] == sorted[a]);
            } else {
                assert(placed[a] == sorted[low]);
                assert(placed[b] == sorted[high]);
            }
        }
        assert forall|c: CapturedBindingView| #[trigger] placed.contains(c) <==> c == capture
            || sorted.contains(c) by {
            assert(placed[i] == capture);
            if sorted.contains(c) {
                let k = choose|k: int| 0 <= k < sorted.len() && sorted[k] == c;
                if k < i {
                    assert(placed[k] == c);
                } else {
                    assert(placed[k + 1] == c);
                }
            }
            if placed.contains(c) && c != capture {
                let k = choose|k: int| 0 <= k < placed.len() && placed[k] == c;
                if k < i {
                    assert(sorted[k] == c);
                } else {
                    assert(sorted[k - 1] == c);
                }
            }
        }
    } else {
        placing_keeps_the_order(sorted, capture, i + 1);
    }
}

/// The captures that come after position `i` are placed into an increasing list.
proof fn sorting_keeps_the_order(
    sorted: Seq<CapturedBindingView>,
    captures: Seq<CapturedBindingView>,
    i: int,
)
    requires
        0 <= i <= captures.len(),
        increasing(sorted),
        captures_in_order(captures),
        distinct_captures(captures),
        forall|c: CapturedBindingView| #[trigger]
            sorted.contains(c) <==> exists|k: int| 0 <= k < i && #[trigger] captures[k] == c,
    ensures
        increasing(sorted_from(sorted, captures, i)),
        forall|c: CapturedBindingView| #[trigger]
            sorted_from(sorted, captures, i).contains(c) <==> captures.contains(c),
    decreases captures.len() - i,
{
    if i < captures.len() {
        assert forall|k: int| 0 <= k < sorted.len() implies (
        #[trigger] sorted[k]).binding.declaration_order
            != captures[i].binding.declaration_order by {
            assert(sorted.contains(sorted[k]));
            let j = choose|j: int| 0 <= j < i && #[trigger] captures[j] == sorted[k];
            assert(captures[j].binding.id != captures[i].binding.id);
        }
        placing_keeps_the_order(sorted, captures[i], 0);
        let next = placed_by_order(sorted, captures[i], 0);
        assert forall|c: CapturedBindingView| #[trigger] next.contains(c) <==> exists|k: int|
            0 <= k < i + 1 && #[trigger] captures[k] == c by {
            if next.contains(c) {
                if c == captures[i] {
                } else {
                    assert(sorted.contains(c));
                    let k = choose|k: int| 0 <= k < i && #[trigger] captures[k] == c;
                    assert(captures[k] == c);
                }
            }
            if exists|k: int| 0 <= k < i + 1 && #[trigger] captures[k] == c {
                let k = choose|k: int| 0 <= k < i + 1 && #[trigger] captures[k] == c;
                if k < i {
                    assert(sorted.contains(c));
                }
            }
        }
        sorting_keeps_the_order(next, captures, i + 1);
    }
}

/// Ordering puts captures into the order of their declaration. It drops none
/// and adds none.
pub proof fn ordering_sorts_captures(captures: Seq<CapturedBindingView>)
    requires
        captures_in_order(captures),
        distinct_captures(captures),
    ensures
        increasing(ordered(captures)),
        captures_in_order(ordered(captures)),
        forall|c: CapturedBindingView| #[trigger]
            ordered(captures).contains(c) <==> captures.contains(c),
{
    let empty = Seq::<CapturedBindingView>::empty();
    assert forall|c: CapturedBindingView| #[trigger] empty.contains(c) <==> exists|k: int|
        0 <= k < 0 && #[trigger] captures[k] == c by {}
    sorting_keeps_the_order(empty, captures, 0);
    let result = ordered(captures);
    assert forall|i: int| 0 <= i < result.len() implies in_order(
        (#[trigger] result[i]).binding,
    ) by {
        assert(result.contains(result[i]));
        assert(captures.contains(result[i]));
        let k = choose|k: int| 0 <= k < captures.len() && captures[k] == result[i];
        assert(in_order(captures[k].binding));
    }
}

proof fn capturing_keeps_a_walk_sound(walk: WalkView, binding: BindingView, span: Span)
    requires
        walk.is_sound(),
        in_order(binding),
    ensures
        walk.captured(binding, span).is_sound(),
{
}

proof fn absorbing_keeps_a_walk_sound(
    walk: WalkView,
    captures: Seq<CapturedBindingView>,
    i: int,
)
    requires
        walk.is_sound(),
        captures_in_order(captures),
    ensures
        walk.absorbed_from(captures, i).is_sound(),
    decreases captures.len() - i,
{
    if 0 <= i < captures.len() {
        capturing_keeps_a_walk_sound(walk, captures[i].binding, captures[i].first_use_span);
        absorbing_keeps_a_walk_sound(walk.absorbed(captures[i]), captures, i + 1);
    }
}

proof fn scopes_keep(resolver: ResolverFacts, state: StateView)
    ensures
        keeps(resolver, state, state.entered()),
        keeps(resolver, state, state.left()),
{
}

proof fn bindings_keep(
    resolver: ResolverFacts,
    state: StateView,
    name: Seq<char>,
    span: Span,
    declared: Option<TypeExprView>,
    inferred_type: Option<TypeView>,
    closure_values: Seq<u32>,
)
    ensures
        keeps(
            resolver,
            state,
            state.with_binding(resolver, name, span, declared, inferred_type, closure_values),
        ),
{
}

proof fn parameters_keep(resolver: ResolverFacts, state: StateView, params: Seq<Param>, i: int)
    ensures
        keeps(resolver, state, params_declared_from(resolver, state, params, i)),
    decreases params.len() - i,
{
    if 0 <= i < params.len() {
        let declared = type_expr_option_view(params[i].ty);
        bindings_keep(
            resolver,
            state,
            params[i].name.0@,
            params[i].span,
            declared,
            None,
            Seq::empty(),
        );
        let next = state.with_binding(
            resolver,
            params[i].name.0@,
            params[i].span,
            declared,
            None,
            Seq::empty(),
        );
        parameters_keep(resolver, next, params, i + 1);
        keeping_carries_over(
            resolver,
            state,
            next,
            params_declared_from(resolver, state, params, i),
        );
    }
}

proof fn references_keep(resolver: ResolverFacts, state: StateView, name: Seq<char>, span: Span)
    ensures
        keeps(resolver, state, state.referenced(name, span)),
{
    first_named_is_in_range(state.walk.outer_visible, name, 0);
    match state.walk.outer(name) {
        Some(binding) => {
            if state.is_sound(resolver) {
                capturing_keeps_a_walk_sound(state.walk, binding, span);
            }
        },
        None => {},
    }
}

proof fn assignments_keep(
    resolver: ResolverFacts,
    state: StateView,
    name: Seq<char>,
    values: Seq<u32>,
    inferred_type: Option<TypeView>,
)
    ensures
        keeps(resolver, state, state.assigned(name, values, inferred_type)),
{
    innermost_named_is_in_range(state.walk.scopes, name, state.walk.scopes.len() as int);
}

proof fn marking_keeps_closures(
    resolver: ResolverFacts,
    closures: Seq<ClosureInfoView>,
    ids: Seq<u32>,
    escape: ClosureEscape,
    i: int,
)
    ensures
        ({
            let marked = escaped_from(closures, ids, escape, i);
            &&& marked.len() == closures.len()
            &&& forall|k: int|
                0 <= k < closures.len() ==> same_closure(#[trigger] closures[k], marked[k])
                    && marked[k].captures == closures[k].captures && (
                closures[k].escapes.no_duplicates() ==> marked[k].escapes.no_duplicates())
        }),
    decreases ids.len() - i,
{
    if 0 <= i < ids.len() {
        let k = ids[i] as int;
        let next = if k < closures.len() {
            closures.update(k, with_escape(closures[k], escape))
        } else {
            closures
        };
        marking_keeps_closures(resolver, next, ids, escape, i + 1);
        let marked = escaped_from(closures, ids, escape, i);
        assert forall|j: int| 0 <= j < closures.len() implies same_closure(
            #[trigger] closures[j],
            marked[j],
        ) && marked[j].captures == closures[j].captures && (
        closures[j].escapes.no_duplicates() ==> marked[j].escapes.no_duplicates()) by {
            assert(same_closure(next[j], marked[j]));
            assert(same_closure(closures[j], next[j]));
        }
    }
}

proof fn escapes_keep(
    resolver: ResolverFacts,
    state: StateView,
    expr: Expr,
    kind: ClosureEscapeKind,
    span: Span,
)
    ensures
        keeps(resolver, state, state.escaped(expr, kind, span)),
{
    let closures = state.facts.closures;
    let ids = state.closure_values(expr);
    let escape = ClosureEscape { kind, span };
    marking_keeps_closures(resolver, closures, ids, escape, 0);
    let marked = escaped_from(closures, ids, escape, 0);
    if state.is_sound(resolver) {
        assert forall|k: int| 0 <= k < marked.len() implies well_recorded(
            resolver,
            #[trigger] marked[k],
            k,
        ) by {
            assert(well_recorded(resolver, closures[k], k));
            assert(same_closure(closures[k], marked[k]));
        }
    }
}

pub(crate) proof fn calling_keeps_facts(
    facts: FactsView,
    ids: Seq<u32>,
    name: Seq<char>,
    span: Span,
    i: int,
)
    ensures
        ({
            let after = called_from(facts, ids, name, span, i);
            &&& facts.is_kept_by(after)
            &&& after.closures == facts.closures
            &&& after.moved == facts.moved
            &&& after.next_binding_id == facts.next_binding_id
            &&& after.next_declaration_order == facts.next_declaration_order
            &&& forall|k: int|
                0 <= i <= k < ids.len() ==> has_key(after.calls, #[trigger] ids[k])
        }),
    decreases ids.len() - i,
{
    if 0 <= i < ids.len() {
        let checked = if has_key(facts.calls, ids[i]) {
            facts.with_error(
                "use of moved FnOnce closure"@ + name + "; closure values can be called once"@,
                span,
            )
        } else {
            facts
        };
        let next = FactsView { calls: with_entry(facts.calls, ids[i], span), ..checked };
        assert forall|id: u32| has_key(facts.calls, id) implies #[trigger] has_key(
            next.calls,
            id,
        ) by {
            stored_keys_stay(facts.calls, ids[i], span, id);
        }
        stored_keys_stay(facts.calls, ids[i], span, ids[i]);
        calling_keeps_facts(next, ids, name, span, i + 1);
        let after = called_from(facts, ids, name, span, i);
        assert forall|id: u32| has_key(facts.calls, id) implies #[trigger] has_key(
            after.calls,
            id,
        ) by {
            assert(has_key(next.calls, id));
        }
        assert forall|k: int| i <= k < ids.len() implies has_key(
            after.calls,
            #[trigger] ids[k],
        ) by {
            if k == i {
                assert(has_key(next.calls, ids[i]));
            }
        }
    }
}

proof fn calls_keep(resolver: ResolverFacts, state: StateView, callee: Expr, span: Span)
    ensures
        keeps(resolver, state, state.called(callee, span)),
{
    calling_keeps_facts(
        state.facts,
        state.closure_values(callee),
        callee_text(callee),
        span,
        0,
    );
}

/// Captured bindings stay moved, and the captures by move join them.
proof fn moving_keeps_moved(
    moved: Seq<(u32, Span)>,
    captures: Seq<ClosureCaptureView>,
    span: Span,
    i: int,
    id: u32,
)
    ensures
        has_key(moved_from(moved, captures, span, i), id) <==> has_key(moved, id) || exists|k: int|
            0 <= i <= k < captures.len() && (#[trigger] captures[k]).binding_id == id
                && captures[k].ownership == CaptureOwnership::Move,
    decreases captures.len() - i,
{
    if 0 <= i < captures.len() {
        let adds = captures[i].ownership == CaptureOwnership::Move && !has_key(
            moved,
            captures[i].binding_id,
        );
        let next = if adds {
            with_entry(moved, captures[i].binding_id, span)
        } else {
            moved
        };
        stored_keys_stay(moved, captures[i].binding_id, span, id);
        moving_keeps_moved(next, captures, span, i + 1, id);
    }
}

proof fn closing_keeps(
    resolver: ResolverFacts,
    state: StateView,
    index: int,
    captures: Seq<CapturedBindingView>,
    mode: CaptureMode,
    span: Span,
    owner: Option<(Seq<char>, Option<u32>)>,
)
    requires
        state.is_sound(resolver) ==> increasing(captures) && captures_in_order(captures),
        0 <= index < state.facts.closures.len(),
        state.facts.closures[index].capture_mode == mode,
    ensures
        keeps(
            resolver,
            state,
            StateView {
                facts: closed(resolver, state.facts, index, captures, mode, span, owner),
                ..state
            },
        ),
{
    let facts = state.facts;
    let after = closed(resolver, facts, index, captures, mode, span, owner);
    let public = all_capture_facts(resolver, captures, mode);
    let checked = cycle_checked(facts, captures, owner);
    assert forall|id: u32| has_key(facts.moved, id) implies #[trigger] has_key(
        after.moved,
        id,
    ) by {
        moving_keeps_moved(facts.moved, public, span, 0, id);
    }
    assert(after.closures[index].captures == public);
    if state.is_sound(resolver) {
        assert(well_recorded(resolver, facts.closures[index], index));
        assert forall|i: int, j: int| 0 <= i < j < public.len() implies (
        #[trigger] public[i]).binding_id < (#[trigger] public[j]).binding_id by {
            assert(in_order(captures[i].binding) && in_order(captures[j].binding));
        }
        assert(well_recorded(resolver, after.closures[index], index));
        assert forall|k: int| 0 <= k < after.closures.len() implies well_recorded(
            resolver,
            #[trigger] after.closures[k],
            k,
        ) by {
            if k != index {
                assert(well_recorded(resolver, facts.closures[k], k));
            }
        }
    }
}

proof fn opening_keeps(
    resolver: ResolverFacts,
    state: StateView,
    span: Span,
    mode: CaptureMode,
    owner: Option<(Seq<char>, Option<u32>)>,
)
    ensures
        keeps(
            resolver,
            state,
            StateView {
                facts: opened(state.facts, span, mode),
                walk: WalkView::start(state.walk.all_visible(), owner),
            },
        ),
{
    let inside = WalkView::start(state.walk.all_visible(), owner);
    if state.is_sound(resolver) {
        visible_scopes_are_in_order(state.walk.outer_visible, state.walk.scopes, 0);
        assert(inside.is_sound());
        let closures = opened(state.facts, span, mode).closures;
        assert forall|k: int| 0 <= k < closures.len() implies well_recorded(
            resolver,
            #[trigger] closures[k],
            k,
        ) by {
            if k < state.facts.closures.len() {
                assert(well_recorded(resolver, state.facts.closures[k], k));
            }
        }
    }
}

proof fn closures_keep(
    resolver: ResolverFacts,
    state: StateView,
    inside: StateView,
    mode: CaptureMode,
    span: Span,
    owner: Option<(Seq<char>, Option<u32>)>,
)
    requires
        keeps(
            resolver,
            StateView {
                facts: opened(state.facts, span, mode),
                walk: WalkView::start(state.walk.all_visible(), owner),
            },
            inside,
        ),
    ensures
        ({
            let captures = ordered(inside.walk.captures);
            keeps(
                resolver,
                state,
                StateView {
                    facts: closed(
                        resolver,
                        inside.facts,
                        state.facts.closures.len() as int,
                        captures,
                        mode,
                        span,
                        owner,
                    ),
                    walk: state.walk.absorbed_from(captures, 0),
                },
            )
        }),
{
    let begun = StateView {
        facts: opened(state.facts, span, mode),
        walk: WalkView::start(state.walk.all_visible(), owner),
    };
    let captures = ordered(inside.walk.captures);
    let index = state.facts.closures.len() as int;
    opening_keeps(resolver, state, span, mode, owner);
    if inside.is_sound(resolver) {
        ordering_sorts_captures(inside.walk.captures);
    }
    assert(same_closure(begun.facts.closures[index], inside.facts.closures[index]));
    closing_keeps(resolver, inside, index, captures, mode, span, owner);
    let ended = StateView {
        facts: closed(resolver, inside.facts, index, captures, mode, span, owner),
        ..inside
    };
    keeping_carries_over(resolver, state, begun, inside);
    keeping_carries_over(resolver, state, inside, ended);
    if state.is_sound(resolver) {
        absorbing_keeps_a_walk_sound(state.walk, captures, 0);
    }
}

proof fn expressions_keep(
    resolver: ResolverFacts,
    expr: Expr,
    state: StateView,
    owner: Option<(Seq<char>, Option<u32>)>,
)
    ensures
        keeps(resolver, state, after_expr(resolver, expr, state, owner)),
    decreases expr, 0nat,
{
    let after = after_expr(resolver, expr, state, owner);
    match expr {
        Expr::Lit(_, _) => {},
        Expr::InterpString { segments, .. } => {
            segments_keep(resolver, segments@, state, 0);
        },
        Expr::Ident(name, span) => {
            references_keep(resolver, state, name.0@, span);
        },
        Expr::Unary { expr, .. } => {
            expressions_keep(resolver, *expr, state, None);
        },
        Expr::Try { expr, .. } => {
            expressions_keep(resolver, *expr, state, None);
        },
        Expr::Cast { expr, .. } => {
            expressions_keep(resolver, *expr, state, None);
        },
        Expr::Ref { expr, .. } => {
            expressions_keep(resolver, *expr, state, None);
        },
        Expr::Binary { lhs, rhs, .. } => {
            let next = after_expr(resolver, *lhs, state, None);
            expressions_keep(resolver, *lhs, state, None);
            expressions_keep(resolver, *rhs, next, None);
            keeping_carries_over(resolver, state, next, after);
        },
        Expr::Call { callee, args, span } => {
            let next = after_expr(resolver, *callee, state, None);
            expressions_keep(resolver, *callee, state, None);
            calls_keep(resolver, next, *callee, span);
            let called = next.called(*callee, span);
            keeping_carries_over(resolver, state, next, called);
            stored_keep(resolver, args@, called, ClosureEscapeKind::Transfer, span, 0);
            keeping_carries_over(resolver, state, called, after);
        },
        Expr::If { cond, then_block, else_block, .. } => {
            let tested = after_expr(resolver, *cond, state, None);
            expressions_keep(resolver, *cond, state, None);
            let first = after_block(resolver, then_block, tested, true, false);
            blocks_keep(resolver, then_block, tested, true, false);
            keeping_carries_over(resolver, state, tested, first);
            match else_block {
                Some(block) => {
                    blocks_keep(resolver, block, first, true, false);
                    keeping_carries_over(resolver, state, first, after);
                },
                None => {},
            }
        },
        Expr::Block(block) => {
            blocks_keep(resolver, block, state, true, false);
        },
        Expr::StructLit { fields, span, .. } => {
            fields_keep(resolver, fields@, state, span, 0);
        },
        Expr::FieldAccess { base, .. } => {
            expressions_keep(resolver, *base, state, None);
        },
        Expr::While { cond, body, .. } => {
            let tested = after_expr(resolver, *cond, state, None);
            expressions_keep(resolver, *cond, state, None);
            blocks_keep(resolver, body, tested, true, false);
            keeping_carries_over(resolver, state, tested, after);
        },
        Expr::For { var, start, end, body, span } => {
            let begun = after_expr(resolver, *start, state, None);
            expressions_keep(resolver, *start, state, None);
            let ready = after_expr(resolver, *end, begun, None);
            expressions_keep(resolver, *end, begun, None);
            keeping_carries_over(resolver, state, begun, ready);
            let bound = ready.entered().with_binding(
                resolver,
                var.0@,
                span,
                None,
                Some(TypeView::I32),
                Seq::empty(),
            );
            scopes_keep(resolver, ready);
            bindings_keep(
                resolver,
                ready.entered(),
                var.0@,
                span,
                None,
                Some(TypeView::I32),
                Seq::empty(),
            );
            keeping_carries_over(resolver, state, ready, ready.entered());
            keeping_carries_over(resolver, state, ready.entered(), bound);
            let walked = after_block(resolver, body, bound, false, false);
            blocks_keep(resolver, body, bound, false, false);
            keeping_carries_over(resolver, state, bound, walked);
            scopes_keep(resolver, walked);
            keeping_carries_over(resolver, state, walked, after);
        },
        Expr::ForIn { var, iter, body, span } => {
            let ready = after_expr(resolver, *iter, state, None);
            expressions_keep(resolver, *iter, state, None);
            let element = match inferred(resolver, *iter, ready.walk) {
                Some(ty) => element_of(ty),
                None => None,
            };
            let bound = ready.entered().with_binding(
                resolver,
                var.0@,
                span,
                None,
                element,
                Seq::empty(),
            );
            scopes_keep(resolver, ready);
            bindings_keep(resolver, ready.entered(), var.0@, span, None, element, Seq::empty());
            keeping_carries_over(resolver, state, ready, ready.entered());
            keeping_carries_over(resolver, state, ready.entered(), bound);
            let walked = after_block(resolver, body, bound, false, false);
            blocks_keep(resolver, body, bound, false, false);
            keeping_carries_over(resolver, state, bound, walked);
            scopes_keep(resolver, walked);
            keeping_carries_over(resolver, state, walked, after);
        },
        Expr::ArrayLit { elements, span } => {
            stored_keep(resolver, elements@, state, ClosureEscapeKind::Storage, span, 0);
        },
        Expr::Tuple { elements, span } => {
            stored_keep(resolver, elements@, state, ClosureEscapeKind::Storage, span, 0);
        },
        Expr::Index { base, index, .. } => {
            let next = after_expr(resolver, *base, state, None);
            expressions_keep(resolver, *base, state, None);
            expressions_keep(resolver, *index, next, None);
            keeping_carries_over(resolver, state, next, after);
        },
        Expr::MethodCall { receiver, method, args, span } => {
            let next = after_expr(resolver, *receiver, state, None);
            expressions_keep(resolver, *receiver, state, None);
            stored_keep(resolver, args@, next, argument_escape(method.0@), span, 0);
            keeping_carries_over(resolver, state, next, after);
        },
        Expr::Match { scrutinee, arms, .. } => {
            let next = after_expr(resolver, *scrutinee, state, None);
            expressions_keep(resolver, *scrutinee, state, None);
            arms_keep(resolver, arms@, next, 0);
            keeping_carries_over(resolver, state, next, after);
        },
        Expr::Closure { capture, params, body, span } => {
            let begun = StateView {
                facts: opened(state.facts, span, capture),
                walk: WalkView::start(state.walk.all_visible(), owner),
            };
            let inside = after_closure_body(resolver, params@, *body, span, begun);
            closure_bodies_keep(resolver, params@, *body, span, begun);
            closures_keep(resolver, state, inside, capture, span, owner);
        },
    }
}

proof fn closure_bodies_keep(
    resolver: ResolverFacts,
    params: Seq<Param>,
    body: Expr,
    span: Span,
    state: StateView,
)
    ensures
        keeps(resolver, state, after_closure_body(resolver, params, body, span, state)),
    decreases body, 1nat,
{
    let ready = params_declared_from(resolver, state, params, 0);
    parameters_keep(resolver, state, params, 0);
    let after = after_closure_body(resolver, params, body, span, state);
    match body {
        Expr::Block(block) => {
            blocks_keep(resolver, block, ready, true, true);
        },
        _ => {
            let next = after_expr(resolver, body, ready, None);
            expressions_keep(resolver, body, ready, None);
            escapes_keep(resolver, next, body, ClosureEscapeKind::Return, span);
            keeping_carries_over(resolver, ready, next, after);
        },
    }
    keeping_carries_over(resolver, state, ready, after);
}

proof fn segments_keep(
    resolver: ResolverFacts,
    segments: Seq<InterpSegment>,
    state: StateView,
    i: int,
)
    ensures
        keeps(resolver, state, after_segments_from(resolver, segments, state, i)),
    decreases segments, segments.len() - i,
{
    if 0 <= i < segments.len() {
        let next = match segments[i] {
            InterpSegment::Expr(expr) => after_expr(resolver, expr, state, None),
            _ => state,
        };
        match segments[i] {
            InterpSegment::Expr(expr) => {
                expressions_keep(resolver, expr, state, None);
            },
            _ => {},
        }
        segments_keep(resolver, segments, next, i + 1);
        keeping_carries_over(
            resolver,
            state,
            next,
            after_segments_from(resolver, segments, state, i),
        );
    }
}

pub(crate) proof fn stored_keep(
    resolver: ResolverFacts,
    exprs: Seq<Expr>,
    state: StateView,
    kind: ClosureEscapeKind,
    span: Span,
    i: int,
)
    ensures
        keeps(resolver, state, after_stored_from(resolver, exprs, state, kind, span, i)),
    decreases exprs, exprs.len() - i,
{
    if 0 <= i < exprs.len() {
        let walked = after_expr(resolver, exprs[i], state, None);
        expressions_keep(resolver, exprs[i], state, None);
        let next = walked.escaped(exprs[i], kind, span);
        escapes_keep(resolver, walked, exprs[i], kind, span);
        keeping_carries_over(resolver, state, walked, next);
        stored_keep(resolver, exprs, next, kind, span, i + 1);
        keeping_carries_over(
            resolver,
            state,
            next,
            after_stored_from(resolver, exprs, state, kind, span, i),
        );
    }
}

pub(crate) proof fn fields_keep(
    resolver: ResolverFacts,
    fields: Seq<(Ident, Expr)>,
    state: StateView,
    span: Span,
    i: int,
)
    ensures
        keeps(resolver, state, after_fields_from(resolver, fields, state, span, i)),
    decreases fields, fields.len() - i,
{
    if 0 <= i < fields.len() {
        let walked = after_expr(resolver, fields[i].1, state, None);
        expressions_keep(resolver, fields[i].1, state, None);
        let next = walked.escaped(fields[i].1, ClosureEscapeKind::Storage, span);
        escapes_keep(resolver, walked, fields[i].1, ClosureEscapeKind::Storage, span);
        keeping_carries_over(resolver, state, walked, next);
        fields_keep(resolver, fields, next, span, i + 1);
        keeping_carries_over(
            resolver,
            state,
            next,
            after_fields_from(resolver, fields, state, span, i),
        );
    }
}

proof fn arms_keep(resolver: ResolverFacts, arms: Seq<MatchArm>, state: StateView, i: int)
    ensures
        keeps(resolver, state, after_arms_from(resolver, arms, state, i)),
    decreases arms, arms.len() - i,
{
    if 0 <= i < arms.len() {
        let entered = state.entered();
        scopes_keep(resolver, state);
        let bound = match arm_binding(arms[i].pattern) {
            Some(name) => entered.with_binding(
                resolver,
                name,
                arms[i].span,
                None,
                None,
                Seq::empty(),
            ),
            None => entered,
        };
        match arm_binding(arms[i].pattern) {
            Some(name) => {
                bindings_keep(resolver, entered, name, arms[i].span, None, None, Seq::empty());
                keeping_carries_over(resolver, state, entered, bound);
            },
            None => {},
        }
        let walked = after_expr(resolver, arms[i].expr, bound, None);
        expressions_keep(resolver, arms[i].expr, bound, None);
        keeping_carries_over(resolver, state, bound, walked);
        let next = walked.left();
        scopes_keep(resolver, walked);
        keeping_carries_over(resolver, state, walked, next);
        arms_keep(resolver, arms, next, i + 1);
        keeping_carries_over(resolver, state, next, after_arms_from(resolver, arms, state, i));
    }
}

proof fn blocks_keep(
    resolver: ResolverFacts,
    block: Block,
    state: StateView,
    scoped: bool,
    yields: bool,
)
    ensures
        keeps(resolver, state, after_block(resolver, block, state, scoped, yields)),
    decreases block, 1nat,
{
    let entered = if scoped {
        state.entered()
    } else {
        state
    };
    scopes_keep(resolver, state);
    let walked = after_stmts_from(resolver, block.stmts@, entered, yields, 0);
    statements_keep(resolver, block.stmts@, entered, yields, 0);
    keeping_carries_over(resolver, state, entered, walked);
    if scoped {
        scopes_keep(resolver, walked);
        keeping_carries_over(resolver, state, walked, walked.left());
    }
}

proof fn statements_keep(
    resolver: ResolverFacts,
    stmts: Seq<Stmt>,
    state: StateView,
    yields: bool,
    i: int,
)
    ensures
        keeps(resolver, state, after_stmts_from(resolver, stmts, state, yields, i)),
    decreases stmts, stmts.len() - i,
{
    if 0 <= i < stmts.len() {
        let implicit = yields && i == stmts.len() - 1;
        let next = after_stmt(resolver, stmts[i], state, implicit);
        statement_keeps(resolver, stmts[i], state, implicit);
        statements_keep(resolver, stmts, next, yields, i + 1);
        keeping_carries_over(
            resolver,
            state,
            next,
            after_stmts_from(resolver, stmts, state, yields, i),
        );
    }
}

proof fn statement_keeps(
    resolver: ResolverFacts,
    stmt: Stmt,
    state: StateView,
    implicit_return: bool,
)
    ensures
        keeps(resolver, state, after_stmt(resolver, stmt, state, implicit_return)),
    decreases stmt, 0nat,
{
    let after = after_stmt(resolver, stmt, state, implicit_return);
    match stmt {
        Stmt::Expr(expr, span) => {
            let next = after_expr(resolver, expr, state, None);
            expressions_keep(resolver, expr, state, None);
            if implicit_return {
                escapes_keep(resolver, next, expr, ClosureEscapeKind::Return, span);
                keeping_carries_over(resolver, state, next, after);
            }
        },
        Stmt::Ret(Some(expr), span) => {
            let next = after_expr(resolver, expr, state, None);
            expressions_keep(resolver, expr, state, None);
            escapes_keep(resolver, next, expr, ClosureEscapeKind::Return, span);
            keeping_carries_over(resolver, state, next, after);
        },
        Stmt::Ret(None, _) => {},
        Stmt::Let { name, ty, value, span, .. } => match value {
            Some(value) => {
                let next = after_expr(resolver, value, state, Some((name.0@, None)));
                expressions_keep(resolver, value, state, Some((name.0@, None)));
                bindings_keep(
                    resolver,
                    next,
                    name.0@,
                    span,
                    type_expr_option_view(ty),
                    inferred(resolver, value, next.walk),
                    next.closure_values(value),
                );
                keeping_carries_over(resolver, state, next, after);
            },
            None => {
                bindings_keep(
                    resolver,
                    state,
                    name.0@,
                    span,
                    type_expr_option_view(ty),
                    None,
                    Seq::empty(),
                );
            },
        },
        Stmt::Assign { target, value, span } => {
            let ready = after_expr(resolver, target, state, None);
            expressions_keep(resolver, target, state, None);
            let owner = assignment_owner(target, ready.walk);
            let next = after_expr(resolver, value, ready, owner);
            expressions_keep(resolver, value, ready, owner);
            keeping_carries_over(resolver, state, ready, next);
            match target {
                Expr::Ident(name, _) => {
                    assignments_keep(
                        resolver,
                        next,
                        name.0@,
                        next.closure_values(value),
                        inferred(resolver, value, next.walk),
                    );
                    keeping_carries_over(resolver, state, next, after);
                },
                Expr::FieldAccess { .. } => {
                    escapes_keep(resolver, next, value, ClosureEscapeKind::Storage, span);
                    keeping_carries_over(resolver, state, next, after);
                },
                Expr::Index { .. } => {
                    escapes_keep(resolver, next, value, ClosureEscapeKind::Storage, span);
                    keeping_carries_over(resolver, state, next, after);
                },
                _ => {},
            }
        },
        Stmt::Break(_) => {},
        Stmt::Continue(_) => {},
    }
}

/// In every function the closures are numbered in the order in which they
/// begin. Each of them is consumed by its call, captures a binding at most once
/// and in the order of declaration, and captures it by copy exactly where its
/// type is known to be copyable. No escape of a closure is recorded twice.
pub proof fn every_closure_is_well_recorded(resolver: ResolverFacts, function: Function)
    ensures
        ({
            let closures = function_analysis(resolver, function).closures;
            forall|i: int|
                0 <= i < closures.len() ==> well_recorded(resolver, #[trigger] closures[i], i)
        }),
{
    let start = StateView {
        facts: FactsView::start(),
        walk: WalkView::start(Seq::empty(), None),
    };
    assert(start.is_sound(resolver));
    let ready = params_declared_from(resolver, start, function.params@, 0);
    parameters_keep(resolver, start, function.params@, 0);
    blocks_keep(resolver, function.body, ready, false, true);
}

/// Walking on takes nothing back: after any further expression the closures
/// found so far keep their identity and their escapes, moved bindings stay
/// moved, and all reports stand.
pub proof fn findings_are_never_taken_back(
    resolver: ResolverFacts,
    expr: Expr,
    state: StateView,
    owner: Option<(Seq<char>, Option<u32>)>,
)
    ensures
        state.facts.is_kept_by(after_expr(resolver, expr, state, owner).facts),
{
    expressions_keep(resolver, expr, state, owner);
}

/// A binding that a closure captured by move is gone: every later use of it is
/// reported. A binding that no closure captured by move stays available.
pub proof fn moved_captures_are_gone(
    resolver: ResolverFacts,
    facts: FactsView,
    index: int,
    captures: Seq<CapturedBindingView>,
    mode: CaptureMode,
    span: Span,
    owner: Option<(Seq<char>, Option<u32>)>,
    later: FactsView,
    binding: BindingView,
    use_span: Span,
)
    requires
        closed(resolver, facts, index, captures, mode, span, owner).is_kept_by(later),
    ensures
        ({
            let after = closed(resolver, facts, index, captures, mode, span, owner);
            let taken = exists|k: int|
                0 <= k < captures.len() && (#[trigger] captures[k]).binding.id == binding.id
                    && capture_facts(resolver, captures[k], mode).ownership
                    == CaptureOwnership::Move;
            &&& taken ==> later.used(binding, use_span).diagnostics.len()
                == later.diagnostics.len() + 1
            &&& !taken && !has_key(facts.moved, binding.id) ==> after.used(binding, use_span)
                == after
        }),
{
    let after = closed(resolver, facts, index, captures, mode, span, owner);
    let public = all_capture_facts(resolver, captures, mode);
    moving_keeps_moved(facts.moved, public, span, 0, binding.id);
    let taken = exists|k: int|
        0 <= k < captures.len() && (#[trigger] captures[k]).binding.id == binding.id
            && capture_facts(resolver, captures[k], mode).ownership == CaptureOwnership::Move;
    if taken {
        let k = choose|k: int|
            0 <= k < captures.len() && (#[trigger] captures[k]).binding.id == binding.id
                && capture_facts(resolver, captures[k], mode).ownership == CaptureOwnership::Move;
        assert(public[k].binding_id == binding.id && public[k].ownership
            == CaptureOwnership::Move);
        assert(has_key(after.moved, binding.id));
        assert(has_key(later.moved, binding.id));
    } else if has_key(after.moved, binding.id) && !has_key(facts.moved, binding.id) {
        let k = choose|k: int|
            0 <= k < public.len() && (#[trigger] public[k]).binding_id == binding.id
                && public[k].ownership == CaptureOwnership::Move;
        assert(captures[k].binding.id == binding.id);
    }
}

proof fn calling_reports_called_closures(
    facts: FactsView,
    ids: Seq<u32>,
    name: Seq<char>,
    span: Span,
    i: int,
    k: int,
)
    requires
        0 <= i <= k < ids.len(),
        has_key(facts.calls, ids[k]),
    ensures
        called_from(facts, ids, name, span, i).diagnostics.len() > facts.diagnostics.len(),
    decreases ids.len() - i,
{
    let checked = if has_key(facts.calls, ids[i]) {
        facts.with_error(
            "use of moved FnOnce closure"@ + name + "; closure values can be called once"@,
            span,
        )
    } else {
        facts
    };
    let next = FactsView { calls: with_entry(facts.calls, ids[i], span), ..checked };
    if k == i {
        calling_keeps_facts(next, ids, name, span, i + 1);
    } else {
        stored_keys_stay(facts.calls, ids[i], span, ids[k]);
        calling_reports_called_closures(next, ids, name, span, i + 1, k);
    }
}

/// A closure can be called once: after a call of an expression that may be some
/// closure, every later call of an expression that may be the same closure is
/// reported.
pub proof fn closures_are_called_once(
    state: StateView,
    callee: Expr,
    span: Span,
    later: StateView,
    again: Expr,
    again_span: Span,
    id: u32,
)
    requires
        state.closure_values(callee).contains(id),
        state.called(callee, span).facts.is_kept_by(later.facts),
        later.closure_values(again).contains(id),
    ensures
        later.called(again, again_span).facts.diagnostics.len() > later.facts.diagnostics.len(),
{
    let ids = state.closure_values(callee);
    calling_keeps_facts(
        state.facts,
        ids,
        callee_text(callee),
        span,
        0,
    );
    let first = choose|k: int| 0 <= k < ids.len() && ids[k] == id;
    assert(has_key(state.called(callee, span).facts.calls, ids[first]));
    assert(has_key(later.facts.calls, id));
    let others = later.closure_values(again);
    let k = choose|k: int| 0 <= k < others.len() && others[k] == id;
    calling_reports_called_closures(
        later.facts,
        others,
        callee_text(again),
        again_span,
        0,
        k,
    );
}

/// Whether a closure carries borrowed data out of its scope: it escapes, and
/// the type of something that it captures holds borrowed data.
pub open spec fn leaks_borrow(resolver: ResolverFacts, info: ClosureInfoView) -> bool {
    info.escapes.len() > 0 && exists|k: int|
        0 <= k < info.captures.len() && (#[trigger] info.captures[k]).resolved_type is Some
            && holds_borrowed(resolver, info.captures[k].resolved_type->0, Seq::empty())
}

proof fn borrowed_captures_are_reported(
    diagnostics: Seq<DiagnosticView>,
    captures: Seq<ClosureCaptureView>,
    kind: ClosureEscapeKind,
    i: int,
)
    requires
        0 <= i,
    ensures
        ({
            let after = borrow_errors_from(diagnostics, captures, kind, i);
            &&& diagnostics.is_prefix_of(after)
            &&& after.len() > diagnostics.len() <==> exists|k: int|
                i <= k < captures.len() && (#[trigger] captures[k]).transitively_borrowed
        }),
    decreases captures.len() - i,
{
    if i < captures.len() {
        let next = if captures[i].transitively_borrowed {
            diagnostics.push(
                error_view(
                    "borrowed capture `"@ + captures[i].name + "` cannot escape through "@
                        + escape_text(kind)
                        + "; capture owned data instead"@,
                    Some(captures[i].first_use_span),
                ),
            )
        } else {
            diagnostics
        };
        borrowed_captures_are_reported(next, captures, kind, i + 1);
        if captures[i].transitively_borrowed {
            assert(next.len() > diagnostics.len());
        }
    }
}

proof fn leaks_are_reported(
    resolver: ResolverFacts,
    diagnostics: Seq<DiagnosticView>,
    closures: Seq<ClosureInfoView>,
    i: int,
)
    requires
        0 <= i,
        forall|k: int|
            0 <= k < closures.len() ==> well_recorded(resolver, #[trigger] closures[k], k),
    ensures
        ({
            let after = escape_errors_from(diagnostics, closures, i);
            &&& diagnostics.is_prefix_of(after)
            &&& after.len() > diagnostics.len() <==> exists|k: int|
                i <= k < closures.len() && leaks_borrow(resolver, #[trigger] closures[k])
        }),
    decreases closures.len() - i,
{
    if i < closures.len() {
        let info = closures[i];
        let next = if info.escapes.len() > 0 {
            borrow_errors_from(diagnostics, info.captures, info.escapes[0].kind, 0)
        } else {
            diagnostics
        };
        if info.escapes.len() > 0 {
            borrowed_captures_are_reported(
                diagnostics,
                info.captures,
                info.escapes[0].kind,
                0,
            );
        }
        assert(well_recorded(resolver, info, i));
        if leaks_borrow(resolver, info) {
            let k = choose|k: int|
                0 <= k < info.captures.len() && (#[trigger] info.captures[k]).resolved_type is Some
                    && holds_borrowed(resolver, info.captures[k].resolved_type->0, Seq::empty());
            assert(info.captures[k].transitively_borrowed);
        }
        if next.len() > diagnostics.len() {
            let k = choose|k: int|
                0 <= k < info.captures.len() && (
                #[trigger] info.captures[k]).transitively_borrowed;
            assert(info.captures[k].resolved_type is Some);
        }
        assert(next.len() > diagnostics.len() <==> leaks_borrow(resolver, info));
        leaks_are_reported(resolver, next, closures, i + 1);
    }
}

/// Borrowed data is rejected exactly where it would escape in a closure: the
/// analysis adds a report to those of the walk if and only if some closure that
/// escapes captured something whose type holds borrowed data.
pub proof fn borrowed_data_never_escapes_unnoticed(resolver: ResolverFacts, function: Function)
    ensures
        ({
            let walked = after_function(resolver, function).facts.diagnostics;
            let analysis = function_analysis(resolver, function);
            &&& walked.is_prefix_of(analysis.diagnostics)
            &&& analysis.diagnostics.len() > walked.len() <==> exists|k: int|
                0 <= k < analysis.closures.len() && leaks_borrow(
                    resolver,
                    #[trigger] analysis.closures[k],
                )
        }),
{
    let facts = after_function(resolver, function).facts;
    let analysis = function_analysis(resolver, function);
    assert(analysis.closures == facts.closures);
    every_closure_is_well_recorded(resolver, function);
    leaks_are_reported(resolver, facts.diagnostics, facts.closures, 0);
    assert((exists|k: int| 0 <= k < facts.closures.len() && leaks_borrow(
        resolver,
        #[trigger] facts.closures[k],
    )) <==> (exists|k: int|
        0 <= k < analysis.closures.len() && leaks_borrow(
            resolver,
            #[trigger] analysis.closures[k],
        )));
}

} // verus!
