//! Every declaration has an identity of its own: bindings are numbered in the
//! order in which they are declared, and names that are in sight at one point
//! never share a number.

use vstd::prelude::*;

use crate::ast::{
    Block, Expr, Function, Ident, InterpSegment, MatchArm, Param, Stmt, TypeExprView,
};
use crate::closure_analysis::{
    after_arms_from, after_block, after_closure_body, after_expr, after_fields_from,
    after_function, after_segments_from, after_stmt, after_stmts_from, after_stored_from,
    argument_escape, arm_binding, assignment_owner, callee_text, element_of, first_named,
    inferred, innermost_named, last_named, opened, ordered, params_declared_from,
    type_expr_option_view, with_scope_from, with_scopes_from, with_visible, BindingView,
    CapturedBindingView, ClosureEscapeKind, FactsView, StateView, WalkView,
};
use crate::closure_laws::{
    calling_keeps_facts, first_named_is_in_range, innermost_named_is_in_range,
};
use crate::diag::Span;
use crate::resolver::ResolverFacts;
use crate::types::TypeView;

verus! {

/// How many bindings an expression declares, those inside of closures included.
pub open spec fn declared_by(expr: Expr) -> nat
    decreases expr, 0nat,
{
    match expr {
        Expr::Lit(_, _) => 0,
        Expr::InterpString { segments, .. } => declared_by_segments(segments@, 0),
        Expr::Ident(_, _) => 0,
        Expr::Unary { expr, .. } => declared_by(*expr),
        Expr::Try { expr, .. } => declared_by(*expr),
        Expr::Cast { expr, .. } => declared_by(*expr),
        Expr::Ref { expr, .. } => declared_by(*expr),
        Expr::Binary { lhs, rhs, .. } => declared_by(*lhs) + declared_by(*rhs),
        Expr::Call { callee, args, .. } => declared_by(*callee) + declared_by_all(args@, 0),
        Expr::If { cond, then_block, else_block, .. } => declared_by(*cond) + declared_by_block(
            then_block,
        ) + match else_block {
            Some(block) => declared_by_block(block),
            None => 0,
        },
        Expr::Block(block) => declared_by_block(block),
        Expr::StructLit { fields, .. } => declared_by_fields(fields@, 0),
        Expr::FieldAccess { base, .. } => declared_by(*base),
        Expr::While { cond, body, .. } => declared_by(*cond) + declared_by_block(body),
        Expr::For { start, end, body, .. } => declared_by(*start) + declared_by(*end) + 1
            + declared_by_block(body),
        Expr::ForIn { iter, body, .. } => declared_by(*iter) + 1 + declared_by_block(body),
        Expr::ArrayLit { elements, .. } => declared_by_all(elements@, 0),
        Expr::Tuple { elements, .. } => declared_by_all(elements@, 0),
        Expr::Index { base, index, .. } => declared_by(*base) + declared_by(*index),
        Expr::MethodCall { receiver, args, .. } => declared_by(*receiver) + declared_by_all(
            args@,
            0,
        ),
        Expr::Match { scrutinee, arms, .. } => declared_by(*scrutinee) + declared_by_arms(
            arms@,
            0,
        ),
        Expr::Closure { params, body, .. } => params@.len() + declared_by(*body),
    }
}

pub open spec fn declared_by_segments(segments: Seq<InterpSegment>, i: int) -> nat
    decreases segments, segments.len() - i,
{
    if i < 0 || i >= segments.len() {
        0
    } else {
        let here = match segments[i] {
            InterpSegment::Expr(expr) => declared_by(expr),
            _ => 0,
        };
        here + declared_by_segments(segments, i + 1)
    }
}

pub open spec fn declared_by_all(exprs: Seq<Expr>, i: int) -> nat
    decreases exprs, exprs.len() - i,
{
    if i < 0 || i >= exprs.len() {
        0
    } else {
        declared_by(exprs[i]) + declared_by_all(exprs, i + 1)
    }
}

pub open spec fn declared_by_fields(fields: Seq<(Ident, Expr)>, i: int) -> nat
    decreases fields, fields.len() - i,
{
    if i < 0 || i >= fields.len() {
        0
    } else {
        declared_by(fields[i].1) + declared_by_fields(fields, i + 1)
    }
}

pub open spec fn declared_by_arms(arms: Seq<MatchArm>, i: int) -> nat
    decreases arms, arms.len() - i,
{
    if i < 0 || i >= arms.len() {
        0
    } else {
        let bound: nat = if arm_binding(arms[i].pattern) is Some {
            1
        } else {
            0
        };
        bound + declared_by(arms[i].expr) + declared_by_arms(arms, i + 1)
    }
}

pub open spec fn declared_by_block(block: Block) -> nat
    decreases block, 1nat,
{
    declared_by_stmts(block.stmts@, 0)
}

pub open spec fn declared_by_stmts(stmts: Seq<Stmt>, i: int) -> nat
    decreases stmts, stmts.len() - i,
{
    if i < 0 || i >= stmts.len() {
        0
    } else {
        declared_by_stmt(stmts[i]) + declared_by_stmts(stmts, i + 1)
    }
}

pub open spec fn declared_by_stmt(stmt: Stmt) -> nat
    decreases stmt, 0nat,
{
    match stmt {
        Stmt::Expr(expr, _) => declared_by(expr),
        Stmt::Ret(Some(expr), _) => declared_by(expr),
        Stmt::Ret(None, _) => 0,
        Stmt::Let { value, .. } => match value {
            Some(value) => declared_by(value) + 1,
            None => 1,
        },
        Stmt::Assign { target, value, .. } => declared_by(target) + declared_by(value),
        Stmt::Break(_) => 0,
        Stmt::Continue(_) => 0,
    }
}

/// How many bindings a function declares, its parameters included.
pub open spec fn declared_by_function(function: Function) -> nat {
    function.params@.len() + declared_by_block(function.body)
}

/// Different bindings of a list have different numbers.
pub open spec fn apart(bindings: Seq<BindingView>) -> bool {
    forall|i: int, j: int|
        0 <= i < j < bindings.len() ==> (#[trigger] bindings[i]).id != (
        #[trigger] bindings[j]).id
}

/// Every binding of a list has a number below `limit`.
pub open spec fn all_below(bindings: Seq<BindingView>, limit: int) -> bool {
    forall|i: int| 0 <= i < bindings.len() ==> (#[trigger] bindings[i]).id < limit
}

/// The numbers go up from scope to scope and within each scope.
pub open spec fn scopes_go_up(scopes: Seq<Seq<BindingView>>) -> bool {
    forall|s: int, j: int, t: int, k: int|
        0 <= s <= t < scopes.len() && 0 <= j < scopes[s].len() && 0 <= k < scopes[t].len() && (s < t
            || j < k) ==> (#[trigger] scopes[s][j]).id < (#[trigger] scopes[t][k]).id
}

/// Whether a list's numbers are below those of all scopes from `s` on.
pub open spec fn below_scopes(
    bindings: Seq<BindingView>,
    scopes: Seq<Seq<BindingView>>,
    s: int,
) -> bool {
    forall|i: int, t: int, k: int|
        0 <= i < bindings.len() && 0 <= s <= t < scopes.len() && 0 <= k < scopes[t].len() ==> (
        #[trigger] bindings[i]).id < (#[trigger] scopes[t][k]).id
}

impl StateView {
    /// Whether all bindings in sight have different numbers, and no number that
    /// is still to be given out.
    #[verifier::opaque]
    pub open spec fn is_numbered(self) -> bool {
        &&& scopes_go_up(self.walk.scopes)
        &&& forall|s: int|
            0 <= s < self.walk.scopes.len() ==> all_below(
                #[trigger] self.walk.scopes[s],
                self.facts.next_binding_id as int,
            )
        &&& apart(self.walk.outer_visible)
        &&& all_below(self.walk.outer_visible, self.facts.next_binding_id as int)
        &&& below_scopes(self.walk.outer_visible, self.walk.scopes, 0)
    }
}

/// Whether a step of the walk gives out `n` numbers, as long as there are that
/// many, and keeps the bindings in sight apart.
pub open spec fn gives_out(before: StateView, after: StateView, n: nat) -> bool {
    before.facts.next_binding_id + n <= u32::MAX ==> {
        &&& after.facts.next_binding_id == before.facts.next_binding_id + n
        &&& before.is_numbered() ==> after.is_numbered()
    }
}

/// A step that changes no scope gives out what the counter says.
proof fn scopes_stay_numbered(before: StateView, after: StateView)
    requires
        after.walk.scopes == before.walk.scopes,
        after.walk.outer_visible == before.walk.outer_visible,
        after.facts.next_binding_id >= before.facts.next_binding_id,
        before.is_numbered(),
    ensures
        after.is_numbered(),
{
    reveal(StateView::is_numbered);
    assert forall|s: int| 0 <= s < after.walk.scopes.len() implies all_below(
        #[trigger] after.walk.scopes[s],
        after.facts.next_binding_id as int,
    ) by {
        assert(all_below(before.walk.scopes[s], before.facts.next_binding_id as int));
    }
}

proof fn scopes_give_out_nothing(state: StateView)
    ensures
        gives_out(state, state.entered(), 0),
        gives_out(state, state.left(), 0),
{
    reveal(StateView::is_numbered);
}

proof fn declarations_give_out_one(state: StateView, after: StateView, binding: BindingView)
    requires
        after.facts == state.facts.after_binding(),
        after.walk == state.walk.declared(binding),
        binding.id == state.facts.next_binding_id,
    ensures
        gives_out(state, after, 1),
{
    reveal(StateView::is_numbered);
    if state.facts.next_binding_id + 1 <= u32::MAX && state.is_numbered() {
        let before = state.walk.scopes;
        let scopes = after.walk.scopes;
        assert forall|s: int| 0 <= s < scopes.len() implies all_below(
            #[trigger] scopes[s],
            after.facts.next_binding_id as int,
        ) by {
            assert(all_below(before[s], state.facts.next_binding_id as int));
        }
        if before.len() > 0 {
            let last = before.len() - 1;
            assert(all_below(before[last], state.facts.next_binding_id as int));
            assert forall|s: int, j: int, t: int, k: int|
                0 <= s <= t < scopes.len() && 0 <= j < scopes[s].len() && 0 <= k
                    < scopes[t].len() && (s < t || j < k) implies (
            #[trigger] scopes[s][j]).id < (#[trigger] scopes[t][k]).id by {
                assert(all_below(before[s], state.facts.next_binding_id as int));
                if s < last || j < before[last].len() {
                    assert(scopes[s][j] == before[s][j]);
                }
                if t < last || k < before[last].len() {
                    assert(scopes[t][k] == before[t][k]);
                }
            }
            assert forall|i: int, t: int, k: int|
                0 <= i < after.walk.outer_visible.len() && 0 <= t < scopes.len() && 0 <= k
                    < scopes[t].len() implies (#[trigger] after.walk.outer_visible[i]).id < (
            #[trigger] scopes[t][k]).id by {
                if t < last || k < before[last].len() {
                    assert(scopes[t][k] == before[t][k]);
                }
            }
        }
    }
}

proof fn bindings_give_out_one(
    resolver: ResolverFacts,
    state: StateView,
    name: Seq<char>,
    span: Span,
    declared: Option<TypeExprView>,
    inferred_type: Option<TypeView>,
    closure_values: Seq<u32>,
)
    ensures
        gives_out(
            state,
            state.with_binding(resolver, name, span, declared, inferred_type, closure_values),
            1,
        ),
{
    declarations_give_out_one(
        state,
        state.with_binding(resolver, name, span, declared, inferred_type, closure_values),
        state.facts.new_binding(resolver, name, span, declared, inferred_type, closure_values),
    );
}

proof fn parameters_give_out(
    resolver: ResolverFacts,
    state: StateView,
    params: Seq<Param>,
    i: int,
)
    requires
        0 <= i <= params.len(),
    ensures
        gives_out(
            state,
            params_declared_from(resolver, state, params, i),
            (params.len() - i) as nat,
        ),
    decreases params.len() - i,
{
    if i < params.len() {
        let next = state.with_binding(
            resolver,
            params[i].name.0@,
            params[i].span,
            type_expr_option_view(params[i].ty),
            None,
            Seq::empty(),
        );
        bindings_give_out_one(
            resolver,
            state,
            params[i].name.0@,
            params[i].span,
            type_expr_option_view(params[i].ty),
            None,
            Seq::empty(),
        );
        parameters_give_out(resolver, next, params, i + 1);
    }
}

proof fn references_give_out_nothing(state: StateView, name: Seq<char>, span: Span)
    ensures
        gives_out(state, state.referenced(name, span), 0),
{
    if state.is_numbered() {
        scopes_stay_numbered(state, state.referenced(name, span));
    }
}

proof fn escapes_give_out_nothing(
    state: StateView,
    expr: Expr,
    kind: ClosureEscapeKind,
    span: Span,
)
    ensures
        gives_out(state, state.escaped(expr, kind, span), 0),
{
    if state.is_numbered() {
        scopes_stay_numbered(state, state.escaped(expr, kind, span));
    }
}

proof fn calls_give_out_nothing(state: StateView, callee: Expr, span: Span)
    ensures
        gives_out(state, state.called(callee, span), 0),
{
    calling_keeps_facts(
        state.facts,
        state.closure_values(callee),
        callee_text(callee),
        span,
        0,
    );
    if state.is_numbered() {
        scopes_stay_numbered(state, state.called(callee, span));
    }
}

proof fn assignments_give_out_nothing(
    state: StateView,
    name: Seq<char>,
    values: Seq<u32>,
    inferred_type: Option<TypeView>,
)
    ensures
        gives_out(state, state.assigned(name, values, inferred_type), 0),
{
    reveal(StateView::is_numbered);
    innermost_named_is_in_range(state.walk.scopes, name, state.walk.scopes.len() as int);
    let before = state.walk.scopes;
    let scopes = state.assigned(name, values, inferred_type).walk.scopes;
    assert(scopes.len() == before.len());
    assert forall|s: int| 0 <= s < scopes.len() implies (#[trigger] scopes[s]).len()
        == before[s].len() by {}
    assert forall|s: int, j: int| 0 <= s < scopes.len() && 0 <= j < scopes[s].len() implies (
    #[trigger] scopes[s][j]).id == before[s][j].id by {}
    if state.is_numbered() {
        assert forall|s: int| 0 <= s < scopes.len() implies all_below(
            #[trigger] scopes[s],
            state.facts.next_binding_id as int,
        ) by {
            assert(all_below(before[s], state.facts.next_binding_id as int));
        }
    }
}

proof fn visible_scope_stays_apart(
    visible: Seq<BindingView>,
    scopes: Seq<Seq<BindingView>>,
    s: int,
    j: int,
    limit: int,
)
    requires
        0 <= s < scopes.len(),
        0 <= j <= scopes[s].len(),
        scopes_go_up(scopes),
        forall|t: int| 0 <= t < scopes.len() ==> all_below(#[trigger] scopes[t], limit),
        apart(visible),
        all_below(visible, limit),
        below_scopes(visible, scopes, s + 1),
        forall|i: int, k: int|
            0 <= i < visible.len() && j <= k < scopes[s].len() ==> (#[trigger] visible[i]).id < (
            #[trigger] scopes[s][k]).id,
    ensures
        apart(with_scope_from(visible, scopes[s], j)),
        all_below(with_scope_from(visible, scopes[s], j), limit),
        below_scopes(with_scope_from(visible, scopes[s], j), scopes, s + 1),
    decreases scopes[s].len() - j,
{
    if j < scopes[s].len() {
        let binding = scopes[s][j];
        let next = with_visible(visible, binding);
        first_named_is_in_range(visible, binding.name, 0);
        assert(all_below(scopes[s], limit));
        assert forall|i: int| 0 <= i < next.len() implies #[trigger] next[i] == binding || (i
            < visible.len() && next[i] == visible[i]) by {}
        assert(apart(next)) by {
            match first_named(visible, binding.name, 0) {
                Some(p) => {
                    assert forall|a: int, b: int| 0 <= a < b < next.len() implies (
                    #[trigger] next[a]).id != (#[trigger] next[b]).id by {
                        assert(visible[a].id < binding.id);
                        assert(visible[b].id < binding.id);
                    }
                },
                None => {
                    assert forall|a: int, b: int| 0 <= a < b < next.len() implies (
                    #[trigger] next[a]).id != (#[trigger] next[b]).id by {
                        assert(visible[a].id < binding.id);
                    }
                },
            }
        }
        assert forall|i: int, t: int, k: int|
            0 <= i < next.len() && s + 1 <= t < scopes.len() && 0 <= k < scopes[t].len() implies (
        #[trigger] next[i]).id < (#[trigger] scopes[t][k]).id by {
            assert(scopes[s][j].id < scopes[t][k].id);
        }
        assert forall|i: int, k: int|
            0 <= i < next.len() && j + 1 <= k < scopes[s].len() implies (#[trigger] next[i]).id < (
        #[trigger] scopes[s][k]).id by {
            assert(scopes[s][j].id < scopes[s][k].id);
        }
        visible_scope_stays_apart(next, scopes, s, j + 1, limit);
    }
}

proof fn visible_scopes_stay_apart(
    visible: Seq<BindingView>,
    scopes: Seq<Seq<BindingView>>,
    s: int,
    limit: int,
)
    requires
        0 <= s <= scopes.len(),
        scopes_go_up(scopes),
        forall|t: int| 0 <= t < scopes.len() ==> all_below(#[trigger] scopes[t], limit),
        apart(visible),
        all_below(visible, limit),
        below_scopes(visible, scopes, s),
    ensures
        apart(with_scopes_from(visible, scopes, s)),
        all_below(with_scopes_from(visible, scopes, s), limit),
    decreases scopes.len() - s,
{
    if s < scopes.len() {
        visible_scope_stays_apart(visible, scopes, s, 0, limit);
        visible_scopes_stay_apart(with_scope_from(visible, scopes[s], 0), scopes, s + 1, limit);
    }
}

/// A closure begins with everything in sight, numbered apart.
proof fn closures_begin_numbered(
    state: StateView,
    facts: FactsView,
    owner: Option<(Seq<char>, Option<u32>)>,
)
    requires
        facts.next_binding_id == state.facts.next_binding_id,
        state.is_numbered(),
    ensures
        (StateView { facts, walk: WalkView::start(state.walk.all_visible(), owner) }).is_numbered(),
{
    reveal(StateView::is_numbered);
    let inside = StateView { facts, walk: WalkView::start(state.walk.all_visible(), owner) };
    visible_scopes_stay_apart(
        state.walk.outer_visible,
        state.walk.scopes,
        0,
        state.facts.next_binding_id as int,
    );
    assert(inside.walk.scopes[0].len() == 0);
}

proof fn absorbing_keeps_the_scopes(
    walk: WalkView,
    captures: Seq<CapturedBindingView>,
    i: int,
)
    ensures
        walk.absorbed_from(captures, i).scopes == walk.scopes,
        walk.absorbed_from(captures, i).outer_visible == walk.outer_visible,
    decreases captures.len() - i,
{
    if 0 <= i < captures.len() {
        absorbing_keeps_the_scopes(walk.absorbed(captures[i]), captures, i + 1);
    }
}

proof fn expressions_give_out(
    resolver: ResolverFacts,
    expr: Expr,
    state: StateView,
    owner: Option<(Seq<char>, Option<u32>)>,
)
    ensures
        gives_out(state, after_expr(resolver, expr, state, owner), declared_by(expr)),
    decreases expr, 0nat,
{
    match expr {
        Expr::Lit(_, _) => {},
        Expr::InterpString { segments, .. } => {
            segments_give_out(resolver, segments@, state, 0);
        },
        Expr::Ident(name, span) => {
            references_give_out_nothing(state, name.0@, span);
        },
        Expr::Unary { expr, .. } => {
            expressions_give_out(resolver, *expr, state, None);
        },
        Expr::Try { expr, .. } => {
            expressions_give_out(resolver, *expr, state, None);
        },
        Expr::Cast { expr, .. } => {
            expressions_give_out(resolver, *expr, state, None);
        },
        Expr::Ref { expr, .. } => {
            expressions_give_out(resolver, *expr, state, None);
        },
        Expr::Binary { lhs, rhs, .. } => {
            expressions_give_out(resolver, *lhs, state, None);
            let next = after_expr(resolver, *lhs, state, None);
            expressions_give_out(resolver, *rhs, next, None);
        },
        Expr::Call { callee, args, span } => {
            expressions_give_out(resolver, *callee, state, None);
            let next = after_expr(resolver, *callee, state, None);
            calls_give_out_nothing(next, *callee, span);
            stored_give_out(
                resolver,
                args@,
                next.called(*callee, span),
                ClosureEscapeKind::Transfer,
                span,
                0,
            );
        },
        Expr::If { cond, then_block, else_block, .. } => {
            expressions_give_out(resolver, *cond, state, None);
            let next = after_expr(resolver, *cond, state, None);
            blocks_give_out(resolver, then_block, next, true, false);
            match else_block {
                Some(block) => {
                    let first = after_block(resolver, then_block, next, true, false);
                    blocks_give_out(resolver, block, first, true, false);
                },
                None => {},
            }
        },
        Expr::Block(block) => {
            blocks_give_out(resolver, block, state, true, false);
        },
        Expr::StructLit { fields, span, .. } => {
            fields_give_out(resolver, fields@, state, span, 0);
        },
        Expr::FieldAccess { base, .. } => {
            expressions_give_out(resolver, *base, state, None);
        },
        Expr::While { cond, body, .. } => {
            expressions_give_out(resolver, *cond, state, None);
            let next = after_expr(resolver, *cond, state, None);
            blocks_give_out(resolver, body, next, true, false);
        },
        Expr::For { var, start, end, body, span } => {
            expressions_give_out(resolver, *start, state, None);
            let begun = after_expr(resolver, *start, state, None);
            expressions_give_out(resolver, *end, begun, None);
            let ready = after_expr(resolver, *end, begun, None);
            loops_give_out(resolver, var.0@, span, Some(TypeView::I32), body, ready);
        },
        Expr::ForIn { var, iter, body, span } => {
            expressions_give_out(resolver, *iter, state, None);
            let ready = after_expr(resolver, *iter, state, None);
            let element = match inferred(resolver, *iter, ready.walk) {
                Some(ty) => element_of(ty),
                None => None,
            };
            loops_give_out(resolver, var.0@, span, element, body, ready);
        },
        Expr::ArrayLit { elements, span } => {
            stored_give_out(resolver, elements@, state, ClosureEscapeKind::Storage, span, 0);
        },
        Expr::Tuple { elements, span } => {
            stored_give_out(resolver, elements@, state, ClosureEscapeKind::Storage, span, 0);
        },
        Expr::Index { base, index, .. } => {
            expressions_give_out(resolver, *base, state, None);
            let next = after_expr(resolver, *base, state, None);
            expressions_give_out(resolver, *index, next, None);
        },
        Expr::MethodCall { receiver, method, args, span } => {
            expressions_give_out(resolver, *receiver, state, None);
            let next = after_expr(resolver, *receiver, state, None);
            stored_give_out(resolver, args@, next, argument_escape(method.0@), span, 0);
        },
        Expr::Match { scrutinee, arms, .. } => {
            expressions_give_out(resolver, *scrutinee, state, None);
            let next = after_expr(resolver, *scrutinee, state, None);
            arms_give_out(resolver, arms@, next, 0);
        },
        Expr::Closure { capture, params, body, span } => {
            let start = StateView {
                facts: opened(state.facts, span, capture),
                walk: WalkView::start(state.walk.all_visible(), owner),
            };
            closure_bodies_give_out(resolver, params@, *body, span, start);
            let inside = after_closure_body(resolver, params@, *body, span, start);
            absorbing_keeps_the_scopes(state.walk, ordered(inside.walk.captures), 0);
            if state.is_numbered() {
                closures_begin_numbered(state, start.facts, owner);
                if state.facts.next_binding_id + declared_by(expr) <= u32::MAX {
                    scopes_stay_numbered(state, after_expr(resolver, expr, state, owner));
                }
            }
        },
    }
}

proof fn closure_bodies_give_out(
    resolver: ResolverFacts,
    params: Seq<Param>,
    body: Expr,
    span: Span,
    state: StateView,
)
    ensures
        gives_out(
            state,
            after_closure_body(resolver, params, body, span, state),
            params.len() + declared_by(body),
        ),
    decreases body, 1nat,
{
    parameters_give_out(resolver, state, params, 0);
    let ready = params_declared_from(resolver, state, params, 0);
    match body {
        Expr::Block(block) => {
            blocks_give_out(resolver, block, ready, true, true);
        },
        _ => {
            expressions_give_out(resolver, body, ready, None);
            let next = after_expr(resolver, body, ready, None);
            escapes_give_out_nothing(next, body, ClosureEscapeKind::Return, span);
        },
    }
}

proof fn loops_give_out(
    resolver: ResolverFacts,
    name: Seq<char>,
    span: Span,
    element: Option<TypeView>,
    body: Block,
    ready: StateView,
)
    ensures
        ({
            let bound = ready.entered().with_binding(
                resolver,
                name,
                span,
                None,
                element,
                Seq::empty(),
            );
            gives_out(
                ready,
                after_block(resolver, body, bound, false, false).left(),
                1 + declared_by_block(body),
            )
        }),
    decreases body, 2nat,
{
    let bound = ready.entered().with_binding(resolver, name, span, None, element, Seq::empty());
    scopes_give_out_nothing(ready);
    bindings_give_out_one(resolver, ready.entered(), name, span, None, element, Seq::empty());
    blocks_give_out(resolver, body, bound, false, false);
    scopes_give_out_nothing(after_block(resolver, body, bound, false, false));
}

proof fn segments_give_out(
    resolver: ResolverFacts,
    segments: Seq<InterpSegment>,
    state: StateView,
    i: int,
)
    ensures
        gives_out(
            state,
            after_segments_from(resolver, segments, state, i),
            declared_by_segments(segments, i),
        ),
    decreases segments, segments.len() - i,
{
    if 0 <= i < segments.len() {
        let next = match segments[i] {
            InterpSegment::Expr(expr) => after_expr(resolver, expr, state, None),
            _ => state,
        };
        match segments[i] {
            InterpSegment::Expr(expr) => {
                expressions_give_out(resolver, expr, state, None);
            },
            _ => {},
        }
        segments_give_out(resolver, segments, next, i + 1);
    }
}

proof fn stored_give_out(
    resolver: ResolverFacts,
    exprs: Seq<Expr>,
    state: StateView,
    kind: ClosureEscapeKind,
    span: Span,
    i: int,
)
    ensures
        gives_out(
            state,
            after_stored_from(resolver, exprs, state, kind, span, i),
            declared_by_all(exprs, i),
        ),
    decreases exprs, exprs.len() - i,
{
    if 0 <= i < exprs.len() {
        expressions_give_out(resolver, exprs[i], state, None);
        let next = after_expr(resolver, exprs[i], state, None);
        escapes_give_out_nothing(next, exprs[i], kind, span);
        stored_give_out(
            resolver,
            exprs,
            next.escaped(exprs[i], kind, span),
            kind,
            span,
            i + 1,
        );
    }
}

proof fn fields_give_out(
    resolver: ResolverFacts,
    fields: Seq<(Ident, Expr)>,
    state: StateView,
    span: Span,
    i: int,
)
    ensures
        gives_out(
            state,
            after_fields_from(resolver, fields, state, span, i),
            declared_by_fields(fields, i),
        ),
    decreases fields, fields.len() - i,
{
    if 0 <= i < fields.len() {
        let value = fields[i].1;
        expressions_give_out(resolver, value, state, None);
        let next = after_expr(resolver, value, state, None);
        escapes_give_out_nothing(next, value, ClosureEscapeKind::Storage, span);
        fields_give_out(
            resolver,
            fields,
            next.escaped(value, ClosureEscapeKind::Storage, span),
            span,
            i + 1,
        );
    }
}

proof fn arms_give_out(resolver: ResolverFacts, arms: Seq<MatchArm>, state: StateView, i: int)
    ensures
        gives_out(
            state,
            after_arms_from(resolver, arms, state, i),
            declared_by_arms(arms, i),
        ),
    decreases arms, arms.len() - i,
{
    if 0 <= i < arms.len() {
        let entered = state.entered();
        scopes_give_out_nothing(state);
        let bound = match arm_binding(arms[i].pattern) {
            Some(name) => entered.with_binding(
                resolver,
                name,
                arms[i].span,
                None,
                None,
                Seq::empty(),
            ),
            None => entered,
        };
        match arm_binding(arms[i].pattern) {
            Some(name) => {
                bindings_give_out_one(
                    resolver,
                    entered,
                    name,
                    arms[i].span,
                    None,
                    None,
                    Seq::empty(),
                );
            },
            None => {},
        }
        expressions_give_out(resolver, arms[i].expr, bound, None);
        let walked = after_expr(resolver, arms[i].expr, bound, None);
        scopes_give_out_nothing(walked);
        arms_give_out(resolver, arms, walked.left(), i + 1);
    }
}

proof fn blocks_give_out(
    resolver: ResolverFacts,
    block: Block,
    state: StateView,
    scoped: bool,
    yields: bool,
)
    ensures
        gives_out(
            state,
            after_block(resolver, block, state, scoped, yields),
            declared_by_block(block),
        ),
    decreases block, 1nat,
{
    let entered = if scoped {
        state.entered()
    } else {
        state
    };
    scopes_give_out_nothing(state);
    statements_give_out(resolver, block.stmts@, entered, yields, 0);
    scopes_give_out_nothing(after_stmts_from(resolver, block.stmts@, entered, yields, 0));
}

proof fn statements_give_out(
    resolver: ResolverFacts,
    stmts: Seq<Stmt>,
    state: StateView,
    yields: bool,
    i: int,
)
    ensures
        gives_out(
            state,
            after_stmts_from(resolver, stmts, state, yields, i),
            declared_by_stmts(stmts, i),
        ),
    decreases stmts, stmts.len() - i,
{
    if 0 <= i < stmts.len() {
        let last = yields && i == stmts.len() - 1;
        statement_gives_out(resolver, stmts[i], state, last);
        let next = after_stmt(resolver, stmts[i], state, last);
        statements_give_out(resolver, stmts, next, yields, i + 1);
    }
}

proof fn statement_gives_out(
    resolver: ResolverFacts,
    stmt: Stmt,
    state: StateView,
    implicit_return: bool,
)
    ensures
        gives_out(
            state,
            after_stmt(resolver, stmt, state, implicit_return),
            declared_by_stmt(stmt),
        ),
    decreases stmt, 0nat,
{
    match stmt {
        Stmt::Expr(expr, span) => {
            expressions_give_out(resolver, expr, state, None);
            let next = after_expr(resolver, expr, state, None);
            escapes_give_out_nothing(next, expr, ClosureEscapeKind::Return, span);
        },
        Stmt::Ret(Some(expr), span) => {
            expressions_give_out(resolver, expr, state, None);
            let next = after_expr(resolver, expr, state, None);
            escapes_give_out_nothing(next, expr, ClosureEscapeKind::Return, span);
        },
        Stmt::Ret(None, _) => {},
        Stmt::Let { name, ty, value, span, .. } => {
            let declared = type_expr_option_view(ty);
            match value {
                Some(value) => {
                    let owner = Some((name.0@, None));
                    expressions_give_out(resolver, value, state, owner);
                    let next = after_expr(resolver, value, state, owner);
                    bindings_give_out_one(
                        resolver,
                        next,
                        name.0@,
                        span,
                        declared,
                        inferred(resolver, value, next.walk),
                        next.closure_values(value),
                    );
                },
                None => {
                    bindings_give_out_one(
                        resolver,
                        state,
                        name.0@,
                        span,
                        declared,
                        None,
                        Seq::empty(),
                    );
                },
            }
        },
        Stmt::Assign { target, value, span } => {
            expressions_give_out(resolver, target, state, None);
            let ready = after_expr(resolver, target, state, None);
            let owner = assignment_owner(target, ready.walk);
            expressions_give_out(resolver, value, ready, owner);
            let next = after_expr(resolver, value, ready, owner);
            match target {
                Expr::Ident(name, _) => {
                    assignments_give_out_nothing(
                        next,
                        name.0@,
                        next.closure_values(value),
                        inferred(resolver, value, next.walk),
                    );
                },
                _ => {
                    escapes_give_out_nothing(next, value, ClosureEscapeKind::Storage, span);
                },
            }
        },
        Stmt::Break(_) => {},
        Stmt::Continue(_) => {},
    }
}

/// Every declaration of an expression takes the next number, and so a number of
/// its own, as long as there are numbers left.
pub proof fn declarations_are_numbered_apart(
    resolver: ResolverFacts,
    expr: Expr,
    state: StateView,
    owner: Option<(Seq<char>, Option<u32>)>,
)
    requires
        state.is_numbered(),
        state.facts.next_binding_id + declared_by(expr) <= u32::MAX,
    ensures
        ({
            let after = after_expr(resolver, expr, state, owner);
            &&& after.is_numbered()
            &&& after.facts.next_binding_id == state.facts.next_binding_id + declared_by(expr)
        }),
{
    expressions_give_out(resolver, expr, state, owner);
}

/// A function that declares no more bindings than there are numbers gives each
/// of them another one: it starts with none, and has given out as many as there
/// are declarations when it ends.
pub proof fn a_function_numbers_its_declarations_apart(
    resolver: ResolverFacts,
    function: Function,
)
    requires
        declared_by_function(function) <= u32::MAX,
    ensures
        after_function(resolver, function).is_numbered(),
        after_function(resolver, function).facts.next_binding_id == declared_by_function(function),
{
    let start = StateView {
        facts: FactsView::start(),
        walk: WalkView::start(Seq::empty(), None),
    };
    assert(start.is_numbered()) by {
        reveal(StateView::is_numbered);
        assert(start.walk.scopes[0].len() == 0);
    }
    let ready = params_declared_from(resolver, start, function.params@, 0);
    parameters_give_out(resolver, start, function.params@, 0);
    blocks_give_out(resolver, function.body, ready, false, true);
}

proof fn found_names_match(bindings: Seq<BindingView>, name: Seq<char>, i: int)
    ensures
        first_named(bindings, name, i) matches Some(p) ==> bindings[p].name == name,
    decreases bindings.len() - i,
{
    if 0 <= i < bindings.len() && bindings[i].name != name {
        found_names_match(bindings, name, i + 1);
    }
}

proof fn last_names_match(scope: Seq<BindingView>, name: Seq<char>, j: int)
    ensures
        last_named(scope, name, j) matches Some(p) ==> scope[p].name == name,
    decreases j,
{
    if 0 < j <= scope.len() && scope[j - 1].name != name {
        last_names_match(scope, name, j - 1);
    }
}

proof fn innermost_names_match(scopes: Seq<Seq<BindingView>>, name: Seq<char>, s: int)
    ensures
        innermost_named(scopes, name, s) matches Some(p) ==> scopes[p.0][p.1].name == name,
    decreases s,
{
    if 0 < s <= scopes.len() {
        last_names_match(scopes[s - 1], name, scopes[s - 1].len() as int);
        innermost_names_match(scopes, name, s - 1);
    }
}

/// Different names in sight denote bindings with different numbers, so that what
/// is recorded of one binding (that it was captured, or moved) is never taken for
/// a record of another.
pub proof fn names_in_sight_are_told_apart(state: StateView, name: Seq<char>, other: Seq<char>)
    requires
        state.is_numbered(),
        name != other,
        state.walk.visible(name) is Some,
        state.walk.visible(other) is Some,
    ensures
        (state.walk.visible(name)->0).id != (state.walk.visible(other)->0).id,
{
    reveal(StateView::is_numbered);
    let walk = state.walk;
    innermost_named_is_in_range(walk.scopes, name, walk.scopes.len() as int);
    innermost_named_is_in_range(walk.scopes, other, walk.scopes.len() as int);
    innermost_names_match(walk.scopes, name, walk.scopes.len() as int);
    innermost_names_match(walk.scopes, other, walk.scopes.len() as int);
    first_named_is_in_range(walk.outer_visible, name, 0);
    first_named_is_in_range(walk.outer_visible, other, 0);
    found_names_match(walk.outer_visible, name, 0);
    found_names_match(walk.outer_visible, other, 0);
    match (walk.local_position(name), walk.local_position(other)) {
        (Some((s, j)), Some((t, k))) => {
            if s < t || (s == t && j < k) {
                assert(walk.scopes[s][j].id < walk.scopes[t][k].id);
            } else {
                assert(walk.scopes[t][k].id < walk.scopes[s][j].id);
            }
        },
        (Some((s, j)), None) => {
            let k = first_named(walk.outer_visible, other, 0)->0;
            assert(walk.outer_visible[k].id < walk.scopes[s][j].id);
        },
        (None, Some((t, k))) => {
            let j = first_named(walk.outer_visible, name, 0)->0;
            assert(walk.outer_visible[j].id < walk.scopes[t][k].id);
        },
        (None, None) => {},
    }
}

} // verus!
