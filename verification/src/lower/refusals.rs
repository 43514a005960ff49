//! What lowering refuses: wrong numbers of arguments, borrowed contents of owning
//! cells, tasks that nobody could call, and receivers that would be overwritten.

use vstd::prelude::*;

use crate::ast::Expr;
use crate::atomic::AtomicScalar;
use crate::diag::Span;
use crate::lower::atomics::{AtomicMethod, AtomicStep};
use crate::lower::kinds::holds_borrow;
use crate::lower::spsc::{channel_item, item_problem};
use crate::lower::state::{LocalState, LowerState};
use crate::lower::values::{LoweredView, StepView};
use crate::mir::LocalId;
use crate::table::value_of;
use crate::types::{
    canonical_application, canonical_constructors_are_distinct, Mutability, TypeView,
    SPSC_RECEIVER_TYPE_CONSTRUCTOR, SPSC_SENDER_TYPE_CONSTRUCTOR,
};

verus! {

/// Whether a step reports one problem and asks for nothing.
pub open spec fn refuses(state: LowerState, after: LowerState, step: StepView) -> bool {
    step is Done && after.diagnostics.len() == state.diagnostics.len() + 1 && after.blocks
        == state.blocks
}

/// How many values a method of an atomic cell takes, by its name.
pub open spec fn takes_values(method: Seq<char>) -> nat {
    if method == "load"@ || method == "is_lock_free"@ {
        0
    } else if method == "compare_exchange"@ {
        2
    } else {
        1
    }
}

/// A method of an atomic cell is asked for its values if it gets as many as it takes,
/// and refused with a report otherwise; truth values are neither added nor
/// subtracted.
pub proof fn atomic_methods_take_their_values(
    state: LowerState,
    local: LocalId,
    scalar: AtomicScalar,
    method: Seq<char>,
    args: nat,
    span: Span,
)
    requires
        state.local_type(local) == Some(TypeView::Atomic(scalar)),
        method == "load"@ || method == "store"@ || method == "swap"@ || method == "fetch_add"@
            || method == "fetch_sub"@ || method == "compare_exchange"@ || method
            == "is_lock_free"@,
    ensures
        ({
            let (after, step) = state.using_atomic(local, method, args, span);
            let added = (method == "fetch_add"@ || method == "fetch_sub"@) && scalar
                == AtomicScalar::Bool;
            if added || args != takes_values(method) {
                step is Refused && after.diagnostics.len() == state.diagnostics.len() + 1
            } else {
                after == state && (step matches AtomicStep::WantsValues {
                    atomic,
                    scalar: found,
                    method: operation,
                } && atomic == local && found == scalar && Some(operation) == AtomicMethod::named(
                    method,
                ))
            }
        }),
{
    reveal_strlit("load");
    reveal_strlit("store");
    reveal_strlit("swap");
    reveal_strlit("fetch_add");
    reveal_strlit("fetch_sub");
    reveal_strlit("compare_exchange");
    reveal_strlit("is_lock_free");
    assert("load"@.len() == 4 && "load"@[0] == 'l');
    assert("swap"@.len() == 4 && "swap"@[0] == 's');
    assert("store"@.len() == 5);
    assert("fetch_add"@.len() == 9 && "fetch_add"@[6] == 'a');
    assert("fetch_sub"@.len() == 9 && "fetch_sub"@[6] == 's');
    assert("compare_exchange"@.len() == 16);
    assert("is_lock_free"@.len() == 12);
}

/// Owning cells and threads are made of exactly one argument, and owning cells of
/// none that is borrowed; the argument is asked for as it is.
pub proof fn cells_and_threads_take_one_argument(state: LowerState, args: Seq<Expr>, span: Span)
    ensures
        ({
            let (arc, arc_step) = state.beginning_arc_new(args, span);
            let (mutex, mutex_step) = state.beginning_mutex_new(args, span);
            let (task, task_step) = state.beginning_spawn(args, span);
            let asked = StepView::Wants { index: 0, expected: None };
            &&& args.len() != 1 || args[0] is Ref ==> refuses(state, arc, arc_step) && refuses(
                state,
                mutex,
                mutex_step,
            )
            &&& args.len() == 1 && !(args[0] is Ref) ==> arc == state && arc_step == asked && mutex
                == state && mutex_step == asked
            &&& args.len() != 1 ==> refuses(state, task, task_step)
            &&& args.len() == 1 ==> task == state && task_step == asked
        }),
{
}

/// A borrowed value does not go into an owning cell: nothing is emitted for it.
pub proof fn cells_own_no_references(
    state: LowerState,
    value: LoweredView,
    inner: TypeView,
    mutability: Mutability,
    span: Span,
)
    requires
        value.ty == Some(TypeView::Ref(Box::new(inner), mutability)),
    ensures
        state.finishing_arc_new(Some(value), span).0.diagnostics.len() == state.diagnostics.len()
            + 1,
        state.finishing_arc_new(Some(value), span).0.blocks == state.blocks,
        state.finishing_mutex_new(Some(value), span).0.diagnostics.len()
            == state.diagnostics.len() + 1,
        state.finishing_mutex_new(Some(value), span).0.blocks == state.blocks,
{
}

/// A task is something that can be called without arguments: everything else is
/// refused with a report and nothing is emitted for it.
pub proof fn tasks_are_called_without_arguments(
    state: LowerState,
    value: LoweredView,
    span: Span,
)
    requires
        match value.ty {
            None => true,
            Some(TypeView::Function { params, .. }) => params.len() > 0,
            Some(TypeView::BorrowedFunction { params, .. }) => params.len() > 0,
            Some(_) => true,
        },
    ensures
        state.finishing_spawn(Some(value), span).0.diagnostics.len() == state.diagnostics.len()
            + 1,
        state.finishing_spawn(Some(value), span).0.blocks == state.blocks,
{
}

/// A channel is made where the type of its items is fixed by what is expected of it,
/// for items that are owned and not empty; it asks for its capacity as a size.
pub proof fn channels_carry_owned_items(
    state: LowerState,
    args: Seq<Expr>,
    span: Span,
    item: TypeView,
    other: TypeView,
)
    ensures
        ({
            let sender = canonical_application(SPSC_SENDER_TYPE_CONSTRUCTOR@, item);
            let pair = TypeView::Tuple(
                seq![sender, canonical_application(SPSC_RECEIVER_TYPE_CONSTRUCTOR@, other)],
            );
            let (alone, alone_step) = state.beginning_channel(args, span, Some(sender));
            let (both, both_step) = state.beginning_channel(args, span, Some(pair));
            let (none, none_step) = state.beginning_channel(args, span, None);
            let fits = (args.len() == 1 || args.len() == 2) && !holds_borrow(item) && !(
            item is Void) && item != TypeView::Tuple(Seq::empty());
            let asked = StepView::Wants { index: 0, expected: Some(TypeView::Usize) };
            &&& fits ==> alone == state && alone_step == asked
            &&& !fits ==> refuses(state, alone, alone_step)
            &&& fits && item == other ==> both == state && both_step == asked
            &&& !fits || item != other ==> refuses(state, both, both_step)
            &&& refuses(state, none, none_step)
        }),
{
    canonical_constructors_are_distinct();
    if let TypeView::Tuple(elements) = item {
        if elements.len() == 0 {
            assert(elements =~= Seq::empty());
        }
    }
    let sender = canonical_application(SPSC_SENDER_TYPE_CONSTRUCTOR@, item);
    let pair = TypeView::Tuple(
        seq![sender, canonical_application(SPSC_RECEIVER_TYPE_CONSTRUCTOR@, other)],
    );
    assert(channel_item(Some(sender)) == Some(item));
    assert(channel_item(Some(pair)) == (if item == other {
        Some(item)
    } else {
        None
    }));
    assert(item_problem(item) is None <==> !holds_borrow(item) && !(item is Void) && item
        != TypeView::Tuple(Seq::empty()));
}

/// The receiver of a channel is put into a local that is named, may be changed, has
/// the receiver's type and holds nothing yet, and into no other.
pub proof fn receivers_are_put_where_nothing_is_lost(
    state: LowerState,
    argument: Expr,
    item: TypeView,
    span: Span,
    local: LocalId,
)
    ensures
        state.output_local(argument, item, span) == Ok::<LocalId, (Seq<char>, Span)>(local) ==> {
            &&& argument matches Expr::Ref { expr, mutability, .. }
            &&& mutability == Mutability::Mutable
            &&& *expr matches Expr::Ident(name, _)
            &&& value_of(state.bindings, name.0@) == Some(local)
            &&& state.local_type(local) == Some(
                canonical_application(SPSC_RECEIVER_TYPE_CONSTRUCTOR@, item),
            )
            &&& state.locals[local.0 as int].mutable
            &&& state.state_of(local) == Some(LocalState::Uninitialized)
        },
{
}

} // verus!
