//! Where closures go: which closures an expression may evaluate to, and that every
//! place that takes such a value over is an escape of each of them.

use vstd::prelude::*;

use crate::ast::{Block, Expr, Ident, MatchArm, Param, Stmt};
use crate::closure_analysis::{
    argument_escape, after_closure_body, after_expr, after_fields_from, after_stmt,
    after_stored_from, assignment_owner, closure_at, escaped_from, gathered, gathered_arms_from,
    gathered_block, gathered_fields_from, gathered_from, params_declared_from, with_escape,
    with_id, with_ids_from, ClosureEscape, ClosureEscapeKind, ClosureInfoView, StateView,
    WalkView,
};
use crate::closure_laws::{fields_keep, same_closure, stored_keep};
use crate::diag::Span;
use crate::resolver::ResolverFacts;

verus! {

/// Whether the value of an expression may be a closure: one that is written there,
/// one that a name in sight may stand for, or one that a part or a branch of the
/// expression hands on.
pub open spec fn may_be(
    spans: Seq<(Span, u32)>,
    walk: WalkView,
    expr: Expr,
    id: u32,
) -> bool
    decreases expr, 0nat,
{
    match expr {
        Expr::Closure { span, .. } => closure_at(spans, span, 0) == Some(id),
        Expr::Ident(name, _) => walk.visible(name.0@) is Some && (walk.visible(
            name.0@,
        )->0).closure_values.contains(id),
        Expr::ArrayLit { elements, .. } => exists|i: int|
            0 <= i < elements@.len() && may_be(spans, walk, #[trigger] elements@[i], id),
        Expr::Tuple { elements, .. } => exists|i: int|
            0 <= i < elements@.len() && may_be(spans, walk, #[trigger] elements@[i], id),
        Expr::StructLit { fields, .. } => exists|i: int|
            0 <= i < fields@.len() && may_be(spans, walk, (#[trigger] fields@[i]).1, id),
        Expr::Cast { expr, .. } => may_be(spans, walk, *expr, id),
        Expr::Try { expr, .. } => may_be(spans, walk, *expr, id),
        Expr::If { then_block, else_block, .. } => block_may_be(spans, walk, then_block, id) || (
        else_block is Some && block_may_be(spans, walk, else_block->0, id)),
        Expr::Block(block) => block_may_be(spans, walk, block, id),
        Expr::Match { arms, .. } => exists|i: int|
            0 <= i < arms@.len() && may_be(spans, walk, (#[trigger] arms@[i]).expr, id),
        _ => false,
    }
}

/// The same of the value of a block: that of its last statement.
pub open spec fn block_may_be(
    spans: Seq<(Span, u32)>,
    walk: WalkView,
    block: Block,
    id: u32,
) -> bool
    decreases block, 0nat,
{
    block.stmts@.len() > 0 && match block.stmts@[block.stmts@.len() - 1] {
        Stmt::Expr(expr, _) => may_be(spans, walk, expr, id),
        Stmt::Ret(Some(expr), _) => may_be(spans, walk, expr, id),
        _ => false,
    }
}

proof fn one_more_id_is_added(ids: Seq<u32>, id: u32, i: int, other: u32)
    requires
        0 <= i,
    ensures
        with_id(ids, id, i).contains(other) <==> ids.contains(other) || other == id,
    decreases ids.len() - i,
{
    let more = with_id(ids, id, i);
    if i >= ids.len() {
        assert(more[ids.len() as int] == id);
        if ids.contains(other) {
            let k = choose|k: int| 0 <= k < ids.len() && ids[k] == other;
            assert(more[k] == other);
        }
    } else if ids[i] == id {
    } else if ids[i] > id {
        assert(more[i] == id);
        if ids.contains(other) {
            let k = choose|k: int| 0 <= k < ids.len() && ids[k] == other;
            if k < i {
                assert(more[k] == other);
            } else {
                assert(more[k + 1] == other);
            }
        }
        if more.contains(other) && other != id {
            let k = choose|k: int| 0 <= k < more.len() && more[k] == other;
            if k < i {
                assert(ids[k] == other);
            } else {
                assert(ids[k - 1] == other);
            }
        }
    } else {
        one_more_id_is_added(ids, id, i + 1, other);
    }
}

proof fn more_ids_are_added(ids: Seq<u32>, more: Seq<u32>, i: int, other: u32)
    requires
        0 <= i,
    ensures
        with_ids_from(ids, more, i).contains(other) <==> ids.contains(other) || exists|k: int|
            i <= k < more.len() && #[trigger] more[k] == other,
    decreases more.len() - i,
{
    if i < more.len() {
        one_more_id_is_added(ids, more[i], 0, other);
        more_ids_are_added(with_id(ids, more[i], 0), more, i + 1, other);
    }
}

proof fn gathering_adds_what_may_be(
    spans: Seq<(Span, u32)>,
    walk: WalkView,
    ids: Seq<u32>,
    expr: Expr,
    id: u32,
)
    ensures
        gathered(spans, walk, ids, expr).contains(id) <==> ids.contains(id) || may_be(
            spans,
            walk,
            expr,
            id,
        ),
    decreases expr, 0nat,
{
    match expr {
        Expr::Closure { span, .. } => match closure_at(spans, span, 0) {
            Some(found) => one_more_id_is_added(ids, found, 0, id),
            None => {},
        },
        Expr::Ident(name, _) => match walk.visible(name.0@) {
            Some(binding) => {
                more_ids_are_added(ids, binding.closure_values, 0, id);
                assert(binding.closure_values.contains(id) <==> exists|k: int|
                    0 <= k < binding.closure_values.len() && #[trigger] binding.closure_values[k]
                        == id);
            },
            None => {},
        },
        Expr::ArrayLit { elements, .. } => {
            list_gathering_adds_what_may_be(spans, walk, ids, elements@, 0, id);
        },
        Expr::Tuple { elements, .. } => {
            list_gathering_adds_what_may_be(spans, walk, ids, elements@, 0, id);
        },
        Expr::StructLit { fields, .. } => {
            field_gathering_adds_what_may_be(spans, walk, ids, fields@, 0, id);
        },
        Expr::Cast { expr, .. } => gathering_adds_what_may_be(spans, walk, ids, *expr, id),
        Expr::Try { expr, .. } => gathering_adds_what_may_be(spans, walk, ids, *expr, id),
        Expr::If { then_block, else_block, .. } => {
            block_gathering_adds_what_may_be(spans, walk, ids, then_block, id);
            match else_block {
                Some(block) => {
                    let first = gathered_block(spans, walk, ids, then_block);
                    block_gathering_adds_what_may_be(spans, walk, first, block, id);
                },
                None => {},
            }
        },
        Expr::Block(block) => block_gathering_adds_what_may_be(spans, walk, ids, block, id),
        Expr::Match { arms, .. } => {
            arm_gathering_adds_what_may_be(spans, walk, ids, arms@, 0, id);
        },
        _ => {},
    }
}

proof fn list_gathering_adds_what_may_be(
    spans: Seq<(Span, u32)>,
    walk: WalkView,
    ids: Seq<u32>,
    exprs: Seq<Expr>,
    i: int,
    id: u32,
)
    requires
        0 <= i,
    ensures
        gathered_from(spans, walk, ids, exprs, i).contains(id) <==> ids.contains(id) || (
        exists|k: int|
            i <= k < exprs.len() && may_be(spans, walk, #[trigger] exprs[k], id)),
    decreases exprs, exprs.len() - i,
{
    if i < exprs.len() {
        gathering_adds_what_may_be(spans, walk, ids, exprs[i], id);
        let next = gathered(spans, walk, ids, exprs[i]);
        list_gathering_adds_what_may_be(spans, walk, next, exprs, i + 1, id);
    }
}

proof fn field_gathering_adds_what_may_be(
    spans: Seq<(Span, u32)>,
    walk: WalkView,
    ids: Seq<u32>,
    fields: Seq<(Ident, Expr)>,
    i: int,
    id: u32,
)
    requires
        0 <= i,
    ensures
        gathered_fields_from(spans, walk, ids, fields, i).contains(id) <==> ids.contains(id)
            || exists|k: int|
            i <= k < fields.len() && may_be(spans, walk, (#[trigger] fields[k]).1, id),
    decreases fields, fields.len() - i,
{
    if i < fields.len() {
        gathering_adds_what_may_be(spans, walk, ids, fields[i].1, id);
        let next = gathered(spans, walk, ids, fields[i].1);
        field_gathering_adds_what_may_be(spans, walk, next, fields, i + 1, id);
    }
}

proof fn arm_gathering_adds_what_may_be(
    spans: Seq<(Span, u32)>,
    walk: WalkView,
    ids: Seq<u32>,
    arms: Seq<MatchArm>,
    i: int,
    id: u32,
)
    requires
        0 <= i,
    ensures
        gathered_arms_from(spans, walk, ids, arms, i).contains(id) <==> ids.contains(id)
            || exists|k: int|
            i <= k < arms.len() && may_be(spans, walk, (#[trigger] arms[k]).expr, id),
    decreases arms, arms.len() - i,
{
    if i < arms.len() {
        gathering_adds_what_may_be(spans, walk, ids, arms[i].expr, id);
        let next = gathered(spans, walk, ids, arms[i].expr);
        arm_gathering_adds_what_may_be(spans, walk, next, arms, i + 1, id);
    }
}

proof fn block_gathering_adds_what_may_be(
    spans: Seq<(Span, u32)>,
    walk: WalkView,
    ids: Seq<u32>,
    block: Block,
    id: u32,
)
    ensures
        gathered_block(spans, walk, ids, block).contains(id) <==> ids.contains(id)
            || block_may_be(spans, walk, block, id),
    decreases block, 0nat,
{
    if block.stmts@.len() > 0 {
        match block.stmts@[block.stmts@.len() - 1] {
            Stmt::Expr(expr, _) => gathering_adds_what_may_be(spans, walk, ids, expr, id),
            Stmt::Ret(Some(expr), _) => gathering_adds_what_may_be(spans, walk, ids, expr, id),
            _ => {},
        }
    }
}

/// The analysis knows exactly the closures that an expression may evaluate to.
pub proof fn closure_values_are_what_may_be(state: StateView, expr: Expr, id: u32)
    ensures
        state.closure_values(expr).contains(id) <==> may_be(
            state.facts.closure_spans,
            state.walk,
            expr,
            id,
        ),
{
    gathering_adds_what_may_be(
        state.facts.closure_spans,
        state.walk,
        Seq::empty(),
        expr,
        id,
    );
}

/// Whether a closure is recorded to escape in a way at a place.
pub open spec fn escapes_at(
    closures: Seq<ClosureInfoView>,
    id: u32,
    kind: ClosureEscapeKind,
    span: Span,
) -> bool {
    (id as int) < closures.len() ==> closures[id as int].escapes.contains(
        ClosureEscape { kind, span },
    )
}

proof fn marked_closures_escape(
    closures: Seq<ClosureInfoView>,
    ids: Seq<u32>,
    escape: ClosureEscape,
    i: int,
    k: int,
)
    requires
        0 <= i,
        0 <= k < closures.len(),
    ensures
        ({
            let marked = escaped_from(closures, ids, escape, i);
            let named = exists|j: int| i <= j < ids.len() && #[trigger] ids[j] == k;
            &&& marked.len() == closures.len()
            &&& named || closures[k].escapes.contains(escape) ==> marked[k].escapes.contains(
                escape,
            )
            &&& !named ==> marked[k] == closures[k]
        }),
    decreases ids.len() - i,
{
    if i < ids.len() {
        let id = ids[i] as int;
        let next = if id < closures.len() {
            closures.update(id, with_escape(closures[id], escape))
        } else {
            closures
        };
        if id == k {
            let info = with_escape(closures[k], escape);
            if !closures[k].escapes.contains(escape) {
                assert(info.escapes[closures[k].escapes.len() as int] == escape);
            }
            assert(next[k].escapes.contains(escape));
        }
        marked_closures_escape(next, ids, escape, i + 1, k);
    }
}

/// What may be the value of an expression that is taken over escapes there, and
/// nothing else does.
pub proof fn taken_closures_escape(
    state: StateView,
    expr: Expr,
    kind: ClosureEscapeKind,
    span: Span,
    id: u32,
)
    ensures
        ({
            let after = state.escaped(expr, kind, span).facts.closures;
            let taken = may_be(state.facts.closure_spans, state.walk, expr, id);
            &&& taken ==> escapes_at(after, id, kind, span)
            &&& !taken && (id as int) < state.facts.closures.len() ==> after[id as int]
                == state.facts.closures[id as int]
        }),
{
    closure_values_are_what_may_be(state, expr, id);
    let ids = state.closure_values(expr);
    if (id as int) < state.facts.closures.len() {
        marked_closures_escape(
            state.facts.closures,
            ids,
            ClosureEscape { kind, span },
            0,
            id as int,
        );
        assert(ids.contains(id) <==> exists|j: int| 0 <= j < ids.len() && #[trigger] ids[j] == id);
    } else {
        escapes_keep_their_number(
            state.facts.closures,
            ids,
            ClosureEscape { kind, span },
            0,
        );
    }
}

proof fn escapes_keep_their_number(
    closures: Seq<ClosureInfoView>,
    ids: Seq<u32>,
    escape: ClosureEscape,
    i: int,
)
    ensures
        escaped_from(closures, ids, escape, i).len() == closures.len(),
    decreases ids.len() - i,
{
    if 0 <= i < ids.len() {
        let id = ids[i] as int;
        let next = if id < closures.len() {
            closures.update(id, with_escape(closures[id], escape))
        } else {
            closures
        };
        escapes_keep_their_number(next, ids, escape, i + 1);
    }
}

/// An escape that was recorded stays recorded while the walk goes on.
proof fn recorded_escapes_stay(
    before: StateView,
    after: StateView,
    id: u32,
    kind: ClosureEscapeKind,
    span: Span,
)
    requires
        before.facts.is_kept_by(after.facts),
        (id as int) < before.facts.closures.len(),
        escapes_at(before.facts.closures, id, kind, span),
    ensures
        escapes_at(after.facts.closures, id, kind, span),
{
    let k = id as int;
    assert(same_closure(before.facts.closures[k], after.facts.closures[k]));
    let earlier = before.facts.closures[k].escapes;
    let later = after.facts.closures[k].escapes;
    let j = choose|j: int| 0 <= j < earlier.len() && earlier[j] == (ClosureEscape { kind, span });
    assert(later.subrange(0, earlier.len() as int)[j] == earlier[j]);
    assert(later[j] == (ClosureEscape { kind, span }));
}

/// The state in which the expression at position `k` of a list has been walked, the
/// ones from position `i` on having been taken over one after the other.
pub open spec fn walked_to(
    resolver: ResolverFacts,
    exprs: Seq<Expr>,
    state: StateView,
    kind: ClosureEscapeKind,
    span: Span,
    i: int,
    k: int,
) -> StateView
    decreases k - i,
{
    let walked = after_expr(resolver, exprs[i], state, None);
    if i >= k {
        walked
    } else {
        walked_to(resolver, exprs, walked.escaped(exprs[i], kind, span), kind, span, i + 1, k)
    }
}

proof fn listed_closures_escape(
    resolver: ResolverFacts,
    exprs: Seq<Expr>,
    state: StateView,
    kind: ClosureEscapeKind,
    span: Span,
    i: int,
    k: int,
    id: u32,
)
    requires
        0 <= i <= k < exprs.len(),
    ensures
        ({
            let walked = walked_to(resolver, exprs, state, kind, span, i, k);
            let after = after_stored_from(resolver, exprs, state, kind, span, i);
            (id as int) < walked.facts.closures.len() && may_be(
                walked.facts.closure_spans,
                walked.walk,
                exprs[k],
                id,
            ) ==> escapes_at(after.facts.closures, id, kind, span)
        }),
    decreases k - i,
{
    let walked = after_expr(resolver, exprs[i], state, None);
    let taken = walked.escaped(exprs[i], kind, span);
    if i < k {
        listed_closures_escape(resolver, exprs, taken, kind, span, i + 1, k, id);
    } else if (id as int) < walked.facts.closures.len() && may_be(
        walked.facts.closure_spans,
        walked.walk,
        exprs[k],
        id,
    ) {
        taken_closures_escape(walked, exprs[i], kind, span, id);
        escapes_keep_their_number(
            walked.facts.closures,
            walked.closure_values(exprs[i]),
            ClosureEscape { kind, span },
            0,
        );
        stored_keep(resolver, exprs, taken, kind, span, i + 1);
        let after = after_stored_from(resolver, exprs, state, kind, span, i);
        recorded_escapes_stay(taken, after, id, kind, span);
    }
}

/// Whether a method puts its arguments into the container that it is called on.
pub open spec fn fills_a_container(method: Seq<char>) -> bool {
    method == "push"@ || method == "insert"@ || method == "add"@ || method == "update"@ || method
        == "set"@
}

/// A closure that is handed to a call escapes there: to a function as a transfer, to
/// a method as an insertion or a transfer, as the method's name says. So does one
/// that is put into an array or a tuple, as storage.
pub proof fn handed_over_closures_escape(
    resolver: ResolverFacts,
    expr: Expr,
    state: StateView,
    k: int,
    id: u32,
)
    ensures
        ({
            let after = after_expr(resolver, expr, state, None).facts.closures;
            match expr {
                Expr::Call { callee, args, span } => {
                    let ready = after_expr(resolver, *callee, state, None).called(*callee, span);
                    let kind = ClosureEscapeKind::Transfer;
                    let walked = walked_to(resolver, args@, ready, kind, span, 0, k);
                    0 <= k < args@.len() && (id as int) < walked.facts.closures.len() && may_be(
                        walked.facts.closure_spans,
                        walked.walk,
                        args@[k],
                        id,
                    ) ==> escapes_at(after, id, kind, span)
                },
                Expr::MethodCall { receiver, method, args, span } => {
                    let ready = after_expr(resolver, *receiver, state, None);
                    let kind = if fills_a_container(method.0@) {
                        ClosureEscapeKind::ContainerInsertion
                    } else {
                        ClosureEscapeKind::Transfer
                    };
                    let walked = walked_to(resolver, args@, ready, kind, span, 0, k);
                    0 <= k < args@.len() && (id as int) < walked.facts.closures.len() && may_be(
                        walked.facts.closure_spans,
                        walked.walk,
                        args@[k],
                        id,
                    ) ==> escapes_at(after, id, kind, span)
                },
                Expr::ArrayLit { elements, span } => {
                    let kind = ClosureEscapeKind::Storage;
                    let walked = walked_to(resolver, elements@, state, kind, span, 0, k);
                    0 <= k < elements@.len() && (id as int) < walked.facts.closures.len()
                        && may_be(
                        walked.facts.closure_spans,
                        walked.walk,
                        elements@[k],
                        id,
                    ) ==> escapes_at(after, id, kind, span)
                },
                Expr::Tuple { elements, span } => {
                    let kind = ClosureEscapeKind::Storage;
                    let walked = walked_to(resolver, elements@, state, kind, span, 0, k);
                    0 <= k < elements@.len() && (id as int) < walked.facts.closures.len()
                        && may_be(
                        walked.facts.closure_spans,
                        walked.walk,
                        elements@[k],
                        id,
                    ) ==> escapes_at(after, id, kind, span)
                },
                _ => true,
            }
        }),
{
    match expr {
        Expr::Call { callee, args, span } => {
            if 0 <= k < args@.len() {
                let ready = after_expr(resolver, *callee, state, None).called(*callee, span);
                let kind = ClosureEscapeKind::Transfer;
                listed_closures_escape(resolver, args@, ready, kind, span, 0, k, id);
            }
        },
        Expr::MethodCall { receiver, method, args, span } => {
            if 0 <= k < args@.len() {
                let ready = after_expr(resolver, *receiver, state, None);
                let kind = argument_escape(method.0@);
                listed_closures_escape(resolver, args@, ready, kind, span, 0, k, id);
            }
        },
        Expr::ArrayLit { elements, span } => {
            if 0 <= k < elements@.len() {
                let kind = ClosureEscapeKind::Storage;
                listed_closures_escape(resolver, elements@, state, kind, span, 0, k, id);
            }
        },
        Expr::Tuple { elements, span } => {
            if 0 <= k < elements@.len() {
                let kind = ClosureEscapeKind::Storage;
                listed_closures_escape(resolver, elements@, state, kind, span, 0, k, id);
            }
        },
        _ => {},
    }
}

/// The same of the fields of a struct literal.
pub open spec fn fields_walked_to(
    resolver: ResolverFacts,
    fields: Seq<(Ident, Expr)>,
    state: StateView,
    span: Span,
    i: int,
    k: int,
) -> StateView
    decreases k - i,
{
    let walked = after_expr(resolver, fields[i].1, state, None);
    if i >= k {
        walked
    } else {
        let stored = walked.escaped(fields[i].1, ClosureEscapeKind::Storage, span);
        fields_walked_to(resolver, fields, stored, span, i + 1, k)
    }
}

/// A closure that is put into a field of a struct literal escapes as storage.
pub proof fn stored_fields_escape(
    resolver: ResolverFacts,
    fields: Seq<(Ident, Expr)>,
    state: StateView,
    span: Span,
    i: int,
    k: int,
    id: u32,
)
    requires
        0 <= i <= k < fields.len(),
    ensures
        ({
            let walked = fields_walked_to(resolver, fields, state, span, i, k);
            let after = after_fields_from(resolver, fields, state, span, i);
            (id as int) < walked.facts.closures.len() && may_be(
                walked.facts.closure_spans,
                walked.walk,
                fields[k].1,
                id,
            ) ==> escapes_at(after.facts.closures, id, ClosureEscapeKind::Storage, span)
        }),
    decreases k - i,
{
    let kind = ClosureEscapeKind::Storage;
    let value = fields[i].1;
    let walked = after_expr(resolver, value, state, None);
    let taken = walked.escaped(value, kind, span);
    if i < k {
        stored_fields_escape(resolver, fields, taken, span, i + 1, k, id);
    } else if (id as int) < walked.facts.closures.len() && may_be(
        walked.facts.closure_spans,
        walked.walk,
        value,
        id,
    ) {
        taken_closures_escape(walked, value, kind, span, id);
        escapes_keep_their_number(
            walked.facts.closures,
            walked.closure_values(value),
            ClosureEscape { kind, span },
            0,
        );
        fields_keep(resolver, fields, taken, span, i + 1);
        let after = after_fields_from(resolver, fields, state, span, i);
        recorded_escapes_stay(taken, after, id, kind, span);
    }
}

/// A closure that a function or a closure may return escapes by that, whether the
/// value is returned in words or is that of the last statement; one that is assigned
/// to a field or an element escapes as storage.
pub proof fn returned_and_assigned_closures_escape(
    resolver: ResolverFacts,
    stmt: Stmt,
    state: StateView,
    last: bool,
    id: u32,
)
    ensures
        ({
            let after = after_stmt(resolver, stmt, state, last).facts.closures;
            match stmt {
                Stmt::Ret(Some(expr), span) => {
                    let walked = after_expr(resolver, expr, state, None);
                    may_be(walked.facts.closure_spans, walked.walk, expr, id) && (id as int)
                        < walked.facts.closures.len() ==> escapes_at(
                        after,
                        id,
                        ClosureEscapeKind::Return,
                        span,
                    )
                },
                Stmt::Expr(expr, span) => {
                    let walked = after_expr(resolver, expr, state, None);
                    &&& last && may_be(walked.facts.closure_spans, walked.walk, expr, id) && (
                    id as int) < walked.facts.closures.len() ==> escapes_at(
                        after,
                        id,
                        ClosureEscapeKind::Return,
                        span,
                    )
                    &&& !last ==> after == walked.facts.closures
                },
                Stmt::Assign { target, value, span } => {
                    let ready = after_expr(resolver, target, state, None);
                    let walked = after_expr(
                        resolver,
                        value,
                        ready,
                        assignment_owner(target, ready.walk),
                    );
                    (target is FieldAccess || target is Index) && may_be(
                        walked.facts.closure_spans,
                        walked.walk,
                        value,
                        id,
                    ) && (id as int) < walked.facts.closures.len() ==> escapes_at(
                        after,
                        id,
                        ClosureEscapeKind::Storage,
                        span,
                    )
                },
                _ => true,
            }
        }),
{
    match stmt {
        Stmt::Ret(Some(expr), span) => {
            let walked = after_expr(resolver, expr, state, None);
            taken_closures_escape(walked, expr, ClosureEscapeKind::Return, span, id);
        },
        Stmt::Expr(expr, span) => {
            let walked = after_expr(resolver, expr, state, None);
            taken_closures_escape(walked, expr, ClosureEscapeKind::Return, span, id);
        },
        Stmt::Assign { target, value, span } => {
            let ready = after_expr(resolver, target, state, None);
            let walked = after_expr(resolver, value, ready, assignment_owner(target, ready.walk));
            taken_closures_escape(walked, value, ClosureEscapeKind::Storage, span, id);
        },
        _ => {},
    }
}

/// What the body of a closure evaluates to is returned from it.
pub proof fn closure_results_escape(
    resolver: ResolverFacts,
    params: Seq<Param>,
    body: Expr,
    span: Span,
    state: StateView,
    id: u32,
)
    requires
        !(body is Block),
    ensures
        ({
            let ready = params_declared_from(resolver, state, params, 0);
            let walked = after_expr(resolver, body, ready, None);
            let after = after_closure_body(resolver, params, body, span, state);
            may_be(walked.facts.closure_spans, walked.walk, body, id) && (id as int)
                < walked.facts.closures.len() ==> escapes_at(
                after.facts.closures,
                id,
                ClosureEscapeKind::Return,
                span,
            )
        }),
{
    let ready = params_declared_from(resolver, state, params, 0);
    let walked = after_expr(resolver, body, ready, None);
    taken_closures_escape(walked, body, ClosureEscapeKind::Return, span, id);
}

} // verus!
