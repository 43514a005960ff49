//! Every use of an outer name is noticed: the walk over a closure looks at all of
//! its body.

use vstd::prelude::*;

use crate::ast::{Block, Expr, Ident, InterpSegment, MatchArm, MatchPattern, Stmt};
use crate::closure_analysis::{
    after_arms_from, after_block, after_closure_body, after_expr, after_fields_from,
    after_segments_from, after_stmt, after_stmts_from, after_stored_from, argument_escape,
    arm_binding, assignment_owner, capture_of, cycle_checked, element_of, has_binding_id,
    has_capture_id, inferred, innermost_named, last_named, opened, ordered, type_expr_option_view,
    BindingView, CapturedBindingView, ClosureEscapeKind, FactsView, StateView, WalkView,
};
use crate::closure_laws::innermost_named_is_in_range;
use crate::diag::Span;
use crate::resolver::ResolverFacts;
use crate::types::TypeView;

verus! {

/// Whether a name is used in an expression, outside of the closures in it.
pub open spec fn uses(expr: Expr, name: Seq<char>) -> bool
    decreases expr, 0nat,
{
    match expr {
        Expr::Lit(_, _) => false,
        Expr::InterpString { segments, .. } => exists|i: int|
            0 <= i < segments@.len() && (#[trigger] segments@[i] matches InterpSegment::Expr(part)
                && uses(part, name)),
        Expr::Ident(ident, _) => ident.0@ == name,
        Expr::Unary { expr, .. } => uses(*expr, name),
        Expr::Try { expr, .. } => uses(*expr, name),
        Expr::Cast { expr, .. } => uses(*expr, name),
        Expr::Ref { expr, .. } => uses(*expr, name),
        Expr::Binary { lhs, rhs, .. } => uses(*lhs, name) || uses(*rhs, name),
        Expr::Call { callee, args, .. } => uses(*callee, name) || exists|i: int|
            0 <= i < args@.len() && uses(#[trigger] args@[i], name),
        Expr::If { cond, then_block, else_block, .. } => uses(*cond, name) || block_uses(
            then_block,
            name,
        ) || (else_block is Some && block_uses(else_block->0, name)),
        Expr::Block(block) => block_uses(block, name),
        Expr::StructLit { fields, .. } => exists|i: int|
            0 <= i < fields@.len() && uses((#[trigger] fields@[i]).1, name),
        Expr::FieldAccess { base, .. } => uses(*base, name),
        Expr::While { cond, body, .. } => uses(*cond, name) || block_uses(body, name),
        Expr::For { start, end, body, .. } => uses(*start, name) || uses(*end, name)
            || block_uses(body, name),
        Expr::ForIn { iter, body, .. } => uses(*iter, name) || block_uses(body, name),
        Expr::ArrayLit { elements, .. } => exists|i: int|
            0 <= i < elements@.len() && uses(#[trigger] elements@[i], name),
        Expr::Tuple { elements, .. } => exists|i: int|
            0 <= i < elements@.len() && uses(#[trigger] elements@[i], name),
        Expr::Index { base, index, .. } => uses(*base, name) || uses(*index, name),
        Expr::MethodCall { receiver, args, .. } => uses(*receiver, name) || exists|i: int|
            0 <= i < args@.len() && uses(#[trigger] args@[i], name),
        Expr::Match { scrutinee, arms, .. } => uses(*scrutinee, name) || exists|i: int|
            0 <= i < arms@.len() && uses((#[trigger] arms@[i]).expr, name),
        Expr::Closure { .. } => false,
    }
}

/// Whether a name is used in a block, outside of the closures in it.
pub open spec fn block_uses(block: Block, name: Seq<char>) -> bool
    decreases block, 1nat,
{
    exists|i: int| 0 <= i < block.stmts@.len() && stmt_uses(#[trigger] block.stmts@[i], name)
}

/// Whether a name is used in a statement, outside of the closures in it.
pub open spec fn stmt_uses(stmt: Stmt, name: Seq<char>) -> bool
    decreases stmt, 0nat,
{
    match stmt {
        Stmt::Expr(expr, _) => uses(expr, name),
        Stmt::Ret(Some(expr), _) => uses(expr, name),
        Stmt::Ret(None, _) => false,
        Stmt::Let { value, .. } => value is Some && uses(value->0, name),
        Stmt::Assign { target, value, .. } => uses(target, name) || uses(value, name),
        Stmt::Break(_) => false,
        Stmt::Continue(_) => false,
    }
}

/// Whether a name is declared in an expression, outside of the closures in it.
pub open spec fn declares(expr: Expr, name: Seq<char>) -> bool
    decreases expr, 0nat,
{
    match expr {
        Expr::Lit(_, _) => false,
        Expr::InterpString { segments, .. } => exists|i: int|
            0 <= i < segments@.len() && (#[trigger] segments@[i] matches InterpSegment::Expr(part)
                && declares(part, name)),
        Expr::Ident(_, _) => false,
        Expr::Unary { expr, .. } => declares(*expr, name),
        Expr::Try { expr, .. } => declares(*expr, name),
        Expr::Cast { expr, .. } => declares(*expr, name),
        Expr::Ref { expr, .. } => declares(*expr, name),
        Expr::Binary { lhs, rhs, .. } => declares(*lhs, name) || declares(*rhs, name),
        Expr::Call { callee, args, .. } => declares(*callee, name) || exists|i: int|
            0 <= i < args@.len() && declares(#[trigger] args@[i], name),
        Expr::If { cond, then_block, else_block, .. } => declares(*cond, name) || block_declares(
            then_block,
            name,
        ) || (else_block is Some && block_declares(else_block->0, name)),
        Expr::Block(block) => block_declares(block, name),
        Expr::StructLit { fields, .. } => exists|i: int|
            0 <= i < fields@.len() && declares((#[trigger] fields@[i]).1, name),
        Expr::FieldAccess { base, .. } => declares(*base, name),
        Expr::While { cond, body, .. } => declares(*cond, name) || block_declares(body, name),
        Expr::For { var, start, end, body, .. } => var.0@ == name || declares(*start, name)
            || declares(*end, name) || block_declares(body, name),
        Expr::ForIn { var, iter, body, .. } => var.0@ == name || declares(*iter, name)
            || block_declares(body, name),
        Expr::ArrayLit { elements, .. } => exists|i: int|
            0 <= i < elements@.len() && declares(#[trigger] elements@[i], name),
        Expr::Tuple { elements, .. } => exists|i: int|
            0 <= i < elements@.len() && declares(#[trigger] elements@[i], name),
        Expr::Index { base, index, .. } => declares(*base, name) || declares(*index, name),
        Expr::MethodCall { receiver, args, .. } => declares(*receiver, name) || exists|i: int|
            0 <= i < args@.len() && declares(#[trigger] args@[i], name),
        Expr::Match { scrutinee, arms, .. } => declares(*scrutinee, name) || exists|i: int|
            0 <= i < arms@.len() && (declares((#[trigger] arms@[i]).expr, name) || (
            arms@[i].pattern matches MatchPattern::Variant { binding: Some(bound), .. } && bound.0@
                == name)),
        Expr::Closure { .. } => false,
    }
}

/// Whether a name is declared in a block, outside of the closures in it.
pub open spec fn block_declares(block: Block, name: Seq<char>) -> bool
    decreases block, 1nat,
{
    exists|i: int| 0 <= i < block.stmts@.len() && stmt_declares(#[trigger] block.stmts@[i], name)
}

/// Whether a name is declared in a statement, outside of the closures in it.
pub open spec fn stmt_declares(stmt: Stmt, name: Seq<char>) -> bool
    decreases stmt, 0nat,
{
    match stmt {
        Stmt::Expr(expr, _) => declares(expr, name),
        Stmt::Ret(Some(expr), _) => declares(expr, name),
        Stmt::Ret(None, _) => false,
        Stmt::Let { name: bound, value, .. } => bound.0@ == name || (value is Some && declares(
            value->0,
            name,
        )),
        Stmt::Assign { target, value, .. } => declares(target, name) || declares(value, name),
        Stmt::Break(_) => false,
        Stmt::Continue(_) => false,
    }
}

/// Whether nothing that was declared inside the walked closure has the name.
pub open spec fn undeclared(walk: WalkView, name: Seq<char>) -> bool {
    forall|s: int, j: int|
        0 <= s < walk.scopes.len() && 0 <= j < walk.scopes[s].len()
            ==> (#[trigger] walk.scopes[s][j]).name != name
}

/// Whether a part of a walk goes on with the same outer names and captures, and
/// captures the binding behind an outer name that it meets.
pub open spec fn notices(
    before: WalkView,
    after: WalkView,
    name: Seq<char>,
    id: u32,
    used: bool,
) -> bool {
    &&& undeclared(after, name)
    &&& after.outer_visible == before.outer_visible
    &&& has_capture_id(before.captures, id) ==> has_capture_id(after.captures, id)
    &&& used && before.outer(name) is Some && (before.outer(name)->0).id == id ==> has_capture_id(
        after.captures,
        id,
    )
}

proof fn undeclared_names_are_not_local(walk: WalkView, name: Seq<char>, s: int)
    requires
        undeclared(walk, name),
        s <= walk.scopes.len(),
    ensures
        innermost_named(walk.scopes, name, s) is None,
    decreases s,
{
    if s > 0 {
        unnamed_scopes_have_no_such_name(
            walk.scopes[s - 1],
            name,
            walk.scopes[s - 1].len() as int,
            walk,
            s - 1,
        );
        undeclared_names_are_not_local(walk, name, s - 1);
    }
}

proof fn unnamed_scopes_have_no_such_name(
    scope: Seq<BindingView>,
    name: Seq<char>,
    j: int,
    walk: WalkView,
    s: int,
)
    requires
        undeclared(walk, name),
        0 <= s < walk.scopes.len(),
        scope == walk.scopes[s],
        j <= scope.len(),
    ensures
        last_named(scope, name, j) is None,
    decreases j,
{
    if j > 0 {
        assert(walk.scopes[s][j - 1].name != name);
        unnamed_scopes_have_no_such_name(scope, name, j - 1, walk, s);
    }
}

proof fn capturing_notices(
    walk: WalkView,
    binding: BindingView,
    span: Span,
    name: Seq<char>,
    id: u32,
)
    requires
        undeclared(walk, name),
    ensures
        notices(walk, walk.captured(binding, span), name, id, false),
        binding.id == id ==> has_capture_id(walk.captured(binding, span).captures, id),
{
    let after = walk.captured(binding, span);
    if has_capture_id(walk.captures, id) {
        let k = choose|k: int|
            0 <= k < walk.captures.len() && (#[trigger] walk.captures[k]).binding.id == id;
        assert(after.captures[k].binding.id == id);
    }
    if binding.id == id && !has_capture_id(walk.captures, id) {
        assert(after.captures[walk.captures.len() as int].binding.id == id);
    }
}

proof fn absorbing_notices(
    walk: WalkView,
    captures: Seq<CapturedBindingView>,
    i: int,
    name: Seq<char>,
    id: u32,
)
    requires
        undeclared(walk, name),
    ensures
        notices(walk, walk.absorbed_from(captures, i), name, id, false),
    decreases captures.len() - i,
{
    if 0 <= i < captures.len() {
        capturing_notices(walk, captures[i].binding, captures[i].first_use_span, name, id);
        absorbing_notices(walk.absorbed(captures[i]), captures, i + 1, name, id);
    }
}

proof fn references_notice(state: StateView, used: Seq<char>, span: Span, name: Seq<char>, id: u32)
    requires
        undeclared(state.walk, name),
    ensures
        notices(state.walk, state.referenced(used, span).walk, name, id, used == name),
{
    undeclared_names_are_not_local(state.walk, name, state.walk.scopes.len() as int);
    if let Some(binding) = state.walk.outer(used) {
        capturing_notices(state.walk, binding, span, name, id);
    }
}

proof fn scopes_notice(walk: WalkView, name: Seq<char>, id: u32)
    requires
        undeclared(walk, name),
    ensures
        notices(walk, walk.entered(), name, id, false),
        notices(walk, walk.left(), name, id, false),
{
    assert forall|s: int, j: int|
        0 <= s < walk.left().scopes.len() && 0 <= j < walk.left().scopes[s].len() implies (
    #[trigger] walk.left().scopes[s][j]).name != name by {
        assert(walk.left().scopes[s] == walk.scopes[s]);
        assert(walk.scopes[s][j].name != name);
    }
    assert forall|s: int, j: int|
        0 <= s < walk.entered().scopes.len() && 0 <= j < walk.entered().scopes[s].len() implies (
    #[trigger] walk.entered().scopes[s][j]).name != name by {
        assert(walk.entered().scopes[s] == walk.scopes[s]);
        assert(walk.scopes[s][j].name != name);
    }
}

proof fn declarations_notice(walk: WalkView, binding: BindingView, name: Seq<char>, id: u32)
    requires
        undeclared(walk, name),
        binding.name != name,
    ensures
        notices(walk, walk.declared(binding), name, id, false),
{
    let after = walk.declared(binding);
    assert forall|s: int, j: int|
        0 <= s < after.scopes.len() && 0 <= j < after.scopes[s].len() implies (
    #[trigger] after.scopes[s][j]).name != name by {
        if s < walk.scopes.len() - 1 {
            assert(after.scopes[s] == walk.scopes[s]);
            assert(walk.scopes[s][j].name != name);
        } else if j < walk.scopes[s].len() {
            assert(after.scopes[s][j] == walk.scopes[s][j]);
        } else {
            assert(after.scopes[s][j] == binding);
        }
    }
}

proof fn assignments_notice(
    state: StateView,
    target: Seq<char>,
    values: Seq<u32>,
    ty: Option<TypeView>,
    name: Seq<char>,
    id: u32,
)
    requires
        undeclared(state.walk, name),
    ensures
        notices(state.walk, state.assigned(target, values, ty).walk, name, id, false),
{
    let walk = state.walk;
    let after = state.assigned(target, values, ty).walk;
    innermost_named_is_in_range(walk.scopes, target, walk.scopes.len() as int);
    assert forall|s: int, j: int|
        0 <= s < after.scopes.len() && 0 <= j < after.scopes[s].len() implies (
    #[trigger] after.scopes[s][j]).name != name by {
        assert(walk.scopes[s][j].name != name);
    }
}

proof fn segments_notice(
    resolver: ResolverFacts,
    segments: Seq<InterpSegment>,
    state: StateView,
    i: int,
    name: Seq<char>,
    id: u32,
)
    requires
        0 <= i,
        undeclared(state.walk, name),
        forall|k: int|
            i <= k < segments.len() ==> !(#[trigger] segments[k] matches InterpSegment::Expr(part)
                && declares(part, name)),
    ensures
        notices(
            state.walk,
            after_segments_from(resolver, segments, state, i).walk,
            name,
            id,
            exists|k: int|
                i <= k < segments.len() && (#[trigger] segments[k] matches InterpSegment::Expr(part)
                    && uses(part, name)),
        ),
    decreases segments, segments.len() - i,
{
    if i < segments.len() {
        let next = match segments[i] {
            InterpSegment::Expr(expr) => after_expr(resolver, expr, state, None),
            _ => state,
        };
        assert(!(segments[i] matches InterpSegment::Expr(part) && declares(part, name)));
        if let InterpSegment::Expr(expr) = segments[i] {
            expressions_notice(resolver, expr, state, None, name, id);
        }
        segments_notice(resolver, segments, next, i + 1, name, id);
    }
}

proof fn stored_notice(
    resolver: ResolverFacts,
    exprs: Seq<Expr>,
    state: StateView,
    kind: ClosureEscapeKind,
    span: Span,
    i: int,
    name: Seq<char>,
    id: u32,
)
    requires
        0 <= i,
        undeclared(state.walk, name),
        forall|k: int| i <= k < exprs.len() ==> !declares(#[trigger] exprs[k], name),
    ensures
        notices(
            state.walk,
            after_stored_from(resolver, exprs, state, kind, span, i).walk,
            name,
            id,
            exists|k: int| i <= k < exprs.len() && uses(#[trigger] exprs[k], name),
        ),
    decreases exprs, exprs.len() - i,
{
    if i < exprs.len() {
        assert(!declares(exprs[i], name));
        expressions_notice(resolver, exprs[i], state, None, name, id);
        let next = after_expr(resolver, exprs[i], state, None).escaped(exprs[i], kind, span);
        stored_notice(resolver, exprs, next, kind, span, i + 1, name, id);
    }
}

proof fn fields_notice(
    resolver: ResolverFacts,
    fields: Seq<(Ident, Expr)>,
    state: StateView,
    span: Span,
    i: int,
    name: Seq<char>,
    id: u32,
)
    requires
        0 <= i,
        undeclared(state.walk, name),
        forall|k: int| i <= k < fields.len() ==> !declares((#[trigger] fields[k]).1, name),
    ensures
        notices(
            state.walk,
            after_fields_from(resolver, fields, state, span, i).walk,
            name,
            id,
            exists|k: int| i <= k < fields.len() && uses((#[trigger] fields[k]).1, name),
        ),
    decreases fields, fields.len() - i,
{
    if i < fields.len() {
        assert(!declares(fields[i].1, name));
        expressions_notice(resolver, fields[i].1, state, None, name, id);
        let next = after_expr(resolver, fields[i].1, state, None).escaped(
            fields[i].1,
            ClosureEscapeKind::Storage,
            span,
        );
        fields_notice(resolver, fields, next, span, i + 1, name, id);
    }
}

proof fn arms_notice(
    resolver: ResolverFacts,
    arms: Seq<MatchArm>,
    state: StateView,
    i: int,
    name: Seq<char>,
    id: u32,
)
    requires
        0 <= i,
        undeclared(state.walk, name),
        forall|k: int|
            i <= k < arms.len() ==> !(declares((#[trigger] arms[k]).expr, name) || (
            arms[k].pattern matches MatchPattern::Variant { binding: Some(bound), .. } && bound.0@
                == name)),
    ensures
        notices(
            state.walk,
            after_arms_from(resolver, arms, state, i).walk,
            name,
            id,
            exists|k: int| i <= k < arms.len() && uses((#[trigger] arms[k]).expr, name),
        ),
    decreases arms, arms.len() - i,
{
    if i < arms.len() {
        let entered = state.entered();
        scopes_notice(state.walk, name, id);
        let arm = arms[i];
        assert(!declares(arm.expr, name));
        let bound = match arm_binding(arm.pattern) {
            Some(binding) => entered.with_binding(
                resolver,
                binding,
                arm.span,
                None,
                None,
                Seq::empty(),
            ),
            None => entered,
        };
        if let Some(binding) = arm_binding(arm.pattern) {
            declarations_notice(
                entered.walk,
                entered.facts.new_binding(resolver, binding, arm.span, None, None, Seq::empty()),
                name,
                id,
            );
        }
        expressions_notice(resolver, arm.expr, bound, None, name, id);
        let walked = after_expr(resolver, arm.expr, bound, None);
        scopes_notice(walked.walk, name, id);
        arms_notice(resolver, arms, walked.left(), i + 1, name, id);
    }
}

proof fn blocks_notice(
    resolver: ResolverFacts,
    block: Block,
    state: StateView,
    scoped: bool,
    yields: bool,
    name: Seq<char>,
    id: u32,
)
    requires
        undeclared(state.walk, name),
        !block_declares(block, name),
    ensures
        notices(
            state.walk,
            after_block(resolver, block, state, scoped, yields).walk,
            name,
            id,
            block_uses(block, name),
        ),
    decreases block, 1nat,
{
    let entered = if scoped {
        state.entered()
    } else {
        state
    };
    scopes_notice(state.walk, name, id);
    assert forall|k: int| 0 <= k < block.stmts@.len() implies !stmt_declares(
        #[trigger] block.stmts@[k],
        name,
    ) by {
        if stmt_declares(block.stmts@[k], name) {
            assert(block_declares(block, name));
        }
    }
    stmts_notice(resolver, block.stmts@, entered, yields, 0, name, id);
    let walked = after_stmts_from(resolver, block.stmts@, entered, yields, 0);
    scopes_notice(walked.walk, name, id);
}

proof fn stmts_notice(
    resolver: ResolverFacts,
    stmts: Seq<Stmt>,
    state: StateView,
    yields: bool,
    i: int,
    name: Seq<char>,
    id: u32,
)
    requires
        0 <= i,
        undeclared(state.walk, name),
        forall|k: int| i <= k < stmts.len() ==> !stmt_declares(#[trigger] stmts[k], name),
    ensures
        notices(
            state.walk,
            after_stmts_from(resolver, stmts, state, yields, i).walk,
            name,
            id,
            exists|k: int| i <= k < stmts.len() && stmt_uses(#[trigger] stmts[k], name),
        ),
    decreases stmts, stmts.len() - i,
{
    if i < stmts.len() {
        let last = yields && i == stmts.len() - 1;
        assert(!stmt_declares(stmts[i], name));
        statements_notice(resolver, stmts[i], state, last, name, id);
        let next = after_stmt(resolver, stmts[i], state, last);
        stmts_notice(resolver, stmts, next, yields, i + 1, name, id);
    }
}

proof fn statements_notice(
    resolver: ResolverFacts,
    stmt: Stmt,
    state: StateView,
    last: bool,
    name: Seq<char>,
    id: u32,
)
    requires
        undeclared(state.walk, name),
        !stmt_declares(stmt, name),
    ensures
        notices(
            state.walk,
            after_stmt(resolver, stmt, state, last).walk,
            name,
            id,
            stmt_uses(stmt, name),
        ),
    decreases stmt, 0nat,
{
    match stmt {
        Stmt::Expr(expr, _) => {
            expressions_notice(resolver, expr, state, None, name, id);
        },
        Stmt::Ret(Some(expr), _) => {
            expressions_notice(resolver, expr, state, None, name, id);
        },
        Stmt::Let { name: bound, ty, value, span, .. } => {
            let declared = type_expr_option_view(ty);
            match value {
                Some(value) => {
                    let owner = Some((bound.0@, None::<u32>));
                    expressions_notice(resolver, value, state, owner, name, id);
                    let next = after_expr(resolver, value, state, owner);
                    declarations_notice(
                        next.walk,
                        next.facts.new_binding(
                            resolver,
                            bound.0@,
                            span,
                            declared,
                            inferred(resolver, value, next.walk),
                            next.closure_values(value),
                        ),
                        name,
                        id,
                    );
                },
                None => {
                    declarations_notice(
                        state.walk,
                        state.facts.new_binding(
                            resolver,
                            bound.0@,
                            span,
                            declared,
                            None,
                            Seq::empty(),
                        ),
                        name,
                        id,
                    );
                },
            }
        },
        Stmt::Assign { target, value, .. } => {
            expressions_notice(resolver, target, state, None, name, id);
            let ready = after_expr(resolver, target, state, None);
            let owner = assignment_owner(target, ready.walk);
            expressions_notice(resolver, value, ready, owner, name, id);
            let next = after_expr(resolver, value, ready, owner);
            if let Expr::Ident(ident, _) = target {
                assignments_notice(
                    next,
                    ident.0@,
                    next.closure_values(value),
                    inferred(resolver, value, next.walk),
                    name,
                    id,
                );
            }
        },
        _ => {},
    }
}

#[verifier::rlimit(40)]
proof fn expressions_notice(
    resolver: ResolverFacts,
    expr: Expr,
    state: StateView,
    owner: Option<(Seq<char>, Option<u32>)>,
    name: Seq<char>,
    id: u32,
)
    requires
        undeclared(state.walk, name),
        !declares(expr, name),
    ensures
        notices(
            state.walk,
            after_expr(resolver, expr, state, owner).walk,
            name,
            id,
            uses(expr, name),
        ),
    decreases expr, 0nat,
{
    match expr {
        Expr::Lit(_, _) => {},
        Expr::InterpString { segments, .. } => {
            segments_notice(resolver, segments@, state, 0, name, id);
        },
        Expr::Ident(ident, span) => {
            references_notice(state, ident.0@, span, name, id);
        },
        Expr::Unary { expr, .. } => {
            expressions_notice(resolver, *expr, state, None, name, id);
        },
        Expr::Try { expr, .. } => {
            expressions_notice(resolver, *expr, state, None, name, id);
        },
        Expr::Cast { expr, .. } => {
            expressions_notice(resolver, *expr, state, None, name, id);
        },
        Expr::Ref { expr, .. } => {
            expressions_notice(resolver, *expr, state, None, name, id);
        },
        Expr::Binary { lhs, rhs, .. } => {
            expressions_notice(resolver, *lhs, state, None, name, id);
            let next = after_expr(resolver, *lhs, state, None);
            expressions_notice(resolver, *rhs, next, None, name, id);
        },
        Expr::Call { callee, args, span } => {
            expressions_notice(resolver, *callee, state, None, name, id);
            let next = after_expr(resolver, *callee, state, None).called(*callee, span);
            stored_notice(
                resolver,
                args@,
                next,
                ClosureEscapeKind::Transfer,
                span,
                0,
                name,
                id,
            );
        },
        Expr::If { cond, then_block, else_block, .. } => {
            expressions_notice(resolver, *cond, state, None, name, id);
            let tested = after_expr(resolver, *cond, state, None);
            blocks_notice(resolver, then_block, tested, true, false, name, id);
            let first = after_block(resolver, then_block, tested, true, false);
            if let Some(block) = else_block {
                blocks_notice(resolver, block, first, true, false, name, id);
            }
        },
        Expr::Block(block) => {
            blocks_notice(resolver, block, state, true, false, name, id);
        },
        Expr::StructLit { fields, span, .. } => {
            fields_notice(resolver, fields@, state, span, 0, name, id);
        },
        Expr::FieldAccess { base, .. } => {
            expressions_notice(resolver, *base, state, None, name, id);
        },
        Expr::While { cond, body, .. } => {
            expressions_notice(resolver, *cond, state, None, name, id);
            let tested = after_expr(resolver, *cond, state, None);
            blocks_notice(resolver, body, tested, true, false, name, id);
        },
        Expr::For { var, start, end, body, span } => {
            expressions_notice(resolver, *start, state, None, name, id);
            let begun = after_expr(resolver, *start, state, None);
            expressions_notice(resolver, *end, begun, None, name, id);
            let ready = after_expr(resolver, *end, begun, None);
            loops_notice(resolver, ready, var.0@, span, Some(TypeView::I32), name, id);
            let bound = ready.entered().with_binding(
                resolver,
                var.0@,
                span,
                None,
                Some(TypeView::I32),
                Seq::empty(),
            );
            blocks_notice(resolver, body, bound, false, false, name, id);
            scopes_notice(after_block(resolver, body, bound, false, false).walk, name, id);
        },
        Expr::ForIn { var, iter, body, span } => {
            expressions_notice(resolver, *iter, state, None, name, id);
            let ready = after_expr(resolver, *iter, state, None);
            let element = match inferred(resolver, *iter, ready.walk) {
                Some(ty) => element_of(ty),
                None => None,
            };
            loops_notice(resolver, ready, var.0@, span, element, name, id);
            let bound = ready.entered().with_binding(
                resolver,
                var.0@,
                span,
                None,
                element,
                Seq::empty(),
            );
            blocks_notice(resolver, body, bound, false, false, name, id);
            scopes_notice(after_block(resolver, body, bound, false, false).walk, name, id);
        },
        Expr::ArrayLit { elements, span } => {
            let kind = ClosureEscapeKind::Storage;
            stored_notice(resolver, elements@, state, kind, span, 0, name, id);
        },
        Expr::Tuple { elements, span } => {
            let kind = ClosureEscapeKind::Storage;
            stored_notice(resolver, elements@, state, kind, span, 0, name, id);
        },
        Expr::Index { base, index, .. } => {
            expressions_notice(resolver, *base, state, None, name, id);
            let next = after_expr(resolver, *base, state, None);
            expressions_notice(resolver, *index, next, None, name, id);
        },
        Expr::MethodCall { receiver, method, args, span } => {
            expressions_notice(resolver, *receiver, state, None, name, id);
            let next = after_expr(resolver, *receiver, state, None);
            let kind = argument_escape(method.0@);
            stored_notice(resolver, args@, next, kind, span, 0, name, id);
        },
        Expr::Match { scrutinee, arms, .. } => {
            expressions_notice(resolver, *scrutinee, state, None, name, id);
            let next = after_expr(resolver, *scrutinee, state, None);
            arms_notice(resolver, arms@, next, 0, name, id);
        },
        Expr::Closure { capture, params, body, span } => {
            let inside = after_closure_body(
                resolver,
                params@,
                *body,
                span,
                StateView {
                    facts: opened(state.facts, span, capture),
                    walk: WalkView::start(state.walk.all_visible(), owner),
                },
            );
            absorbing_notices(state.walk, ordered(inside.walk.captures), 0, name, id);
        },
    }
}

proof fn loops_notice(
    resolver: ResolverFacts,
    state: StateView,
    var: Seq<char>,
    span: Span,
    ty: Option<TypeView>,
    name: Seq<char>,
    id: u32,
)
    requires
        undeclared(state.walk, name),
        var != name,
    ensures
        notices(
            state.walk,
            state.entered().with_binding(resolver, var, span, None, ty, Seq::empty()).walk,
            name,
            id,
            false,
        ),
{
    scopes_notice(state.walk, name, id);
    let entered = state.entered();
    declarations_notice(
        entered.walk,
        entered.facts.new_binding(resolver, var, span, None, ty, Seq::empty()),
        name,
        id,
    );
}

/// An outer name that is used anywhere in an expression, outside of the closures in
/// it, is captured by the closure that the expression belongs to, unless the closure
/// declares a name of its own like it.
pub proof fn used_outer_names_are_captured(
    resolver: ResolverFacts,
    expr: Expr,
    state: StateView,
    owner: Option<(Seq<char>, Option<u32>)>,
    name: Seq<char>,
)
    requires
        undeclared(state.walk, name),
        !declares(expr, name),
        uses(expr, name),
        state.walk.outer(name) is Some,
    ensures
        has_capture_id(
            after_expr(resolver, expr, state, owner).walk.captures,
            (state.walk.outer(name)->0).id,
        ),
{
    expressions_notice(resolver, expr, state, owner, name, (state.walk.outer(name)->0).id);
}

/// The same of the statements of a closure.
pub proof fn outer_names_in_statements_are_captured(
    resolver: ResolverFacts,
    block: Block,
    state: StateView,
    yields: bool,
    name: Seq<char>,
)
    requires
        undeclared(state.walk, name),
        !block_declares(block, name),
        block_uses(block, name),
        state.walk.outer(name) is Some,
    ensures
        has_capture_id(
            after_block(resolver, block, state, true, yields).walk.captures,
            (state.walk.outer(name)->0).id,
        ),
{
    let id = (state.walk.outer(name)->0).id;
    blocks_notice(resolver, block, state, true, yields, name, id);
}

proof fn absorbing_passes_on(
    walk: WalkView,
    captures: Seq<CapturedBindingView>,
    i: int,
    id: u32,
)
    requires
        0 <= i,
    ensures
        ({
            let after = walk.absorbed_from(captures, i);
            let outside = !walk.has_local_id(id) && has_binding_id(walk.outer_visible, id);
            &&& after.scopes == walk.scopes
            &&& after.outer_visible == walk.outer_visible
            &&& has_capture_id(after.captures, id) <==> has_capture_id(walk.captures, id) || (outside
                && exists|k: int|
                i <= k < captures.len() && (#[trigger] captures[k]).binding.id == id)
        }),
    decreases captures.len() - i,
{
    if i < captures.len() {
        let next = walk.absorbed(captures[i]);
        absorbing_passes_on(next, captures, i + 1, id);
        let pushed = CapturedBindingView {
            binding: captures[i].binding,
            first_use_span: captures[i].first_use_span,
        };
        assert(next.captures == walk.captures || next.captures == walk.captures.push(pushed));
        if has_capture_id(walk.captures, id) {
            let j = choose|j: int|
                0 <= j < walk.captures.len() && (#[trigger] walk.captures[j]).binding.id == id;
            assert(next.captures[j].binding.id == id);
        }
        if has_capture_id(next.captures, id) && !has_capture_id(walk.captures, id) {
            let j = choose|j: int|
                0 <= j < next.captures.len() && (#[trigger] next.captures[j]).binding.id == id;
            if j < walk.captures.len() {
                assert(walk.captures[j].binding.id == id);
            }
            assert(captures[i].binding.id == id);
        }
        if captures[i].binding.id == id && !walk.has_local_id(id) && has_binding_id(
            walk.outer_visible,
            id,
        ) && !has_capture_id(walk.captures, id) {
            assert(next.captures[walk.captures.len() as int].binding.id == id);
        }
        if exists|k: int| i <= k < captures.len() && (#[trigger] captures[k]).binding.id == id {
            let k = choose|k: int|
                i <= k < captures.len() && (#[trigger] captures[k]).binding.id == id;
            if k > i {
                assert(i + 1 <= k < captures.len() && captures[k].binding.id == id);
            }
        }
    }
}

/// What a closure captures is captured by the closure around it too, exactly if it
/// comes from outside of both.
pub proof fn nested_captures_are_passed_out(
    walk: WalkView,
    captures: Seq<CapturedBindingView>,
    id: u32,
)
    ensures
        has_capture_id(walk.absorbed_from(captures, 0).captures, id) <==> has_capture_id(
            walk.captures,
            id,
        ) || (has_capture_id(captures, id) && !walk.has_local_id(id) && has_binding_id(
            walk.outer_visible,
            id,
        )),
{
    absorbing_passes_on(walk, captures, 0, id);
}

proof fn captures_are_searched(captures: Seq<CapturedBindingView>, id: u32, i: int)
    requires
        0 <= i,
    ensures
        capture_of(captures, id, i) is Some <==> exists|k: int|
            i <= k < captures.len() && (#[trigger] captures[k]).binding.id == id,
    decreases captures.len() - i,
{
    if i < captures.len() {
        captures_are_searched(captures, id, i + 1);
        if captures[i].binding.id != id && capture_of(captures, id, i) is Some {
            let k = choose|k: int|
                i + 1 <= k < captures.len() && (#[trigger] captures[k]).binding.id == id;
            assert(captures[k].binding.id == id);
        }
    }
}

/// A closure that captures the binding that it is about to be stored under is
/// reported, and only that is.
pub proof fn closures_must_not_capture_themselves(
    facts: FactsView,
    captures: Seq<CapturedBindingView>,
    name: Seq<char>,
    id: u32,
)
    ensures
        cycle_checked(facts, captures, Some((name, Some(id)))).diagnostics.len()
            == facts.diagnostics.len() + (if has_capture_id(captures, id) {
            1int
        } else {
            0
        }),
        cycle_checked(facts, captures, None) == facts,
{
    captures_are_searched(captures, id, 0);
}

/// A name that is declared inside the walked closure is no capture, and a name that
/// is declared nowhere in sight is none either.
pub proof fn own_names_are_not_captured(state: StateView, name: Seq<char>, span: Span)
    ensures
        state.walk.local(name) is Some || state.walk.outer(name) is None ==> state.referenced(
            name,
            span,
        ).walk == state.walk,
{
}

} // verus!
