//! What each concurrency operation does when its code runs: which runtime calls
//! are made, in which order, and which outcome of them leads to which result.

use vstd::prelude::*;

use crate::ast::{BinaryOp, Expr};
use crate::atomic::{AtomicOrdering, AtomicRmwOp, AtomicScalar};
use crate::diag::Span;
use crate::lower::atomics::{scalar_value, AtomicMethod};
use crate::lower::execution::{
    arrives, handle_locals_take_the_next_number, instructions_are_appended, puts,
    typed_locals_take_the_next_number, values_are_put_once, Run,
};
use crate::lower::methods::MethodStepView;
use crate::lower::outline::{quiet_values_change_one_local, quiet_values_keep_the_locals};
use crate::lower::spsc::{is_unit, EndpointStepView, RECV_RESULT, SEND_RESULT};
use crate::lower::state::{
    ArcLoan, LocalState, LowerState, MutexGuardBorrow, MutexLoan,
};
use crate::lower::threads::raw_handle_view;
use crate::lower::values::{constant, LoweredView};
use crate::mir::{BlockId, BorrowKind, LocalId, MirInstView, MirValue, RvalueView};
use crate::table::{stored_values_are_found, value_of, with_entry};
use crate::thread::{thread_result_view, THREAD_ERROR_TYPE, THREAD_HANDLE_TYPE};
use crate::thread_safety::{
    checks_decide_safety, is_safe, spawn_verdict, RegistryView, ThreadSafetyRequirement,
    ThreadSafetyTypeView,
};
use crate::types::{
    canonical_application, canonical_constructors_are_distinct, Mutability, TypeView,
    ARC_TYPE_CONSTRUCTOR, MUTEX_GUARD_TYPE_CONSTRUCTOR, MUTEX_TYPE_CONSTRUCTOR,
    SPSC_RECEIVER_TYPE_CONSTRUCTOR, SPSC_SENDER_TYPE_CONSTRUCTOR,
};

verus! {

proof fn runs_add_up(
    start: Run,
    blocks: Seq<Seq<MirInstView>>,
    outcomes: Map<LocalId, int>,
    first: nat,
    second: nat,
)
    ensures
        start.after(blocks, outcomes, first + second) == start.after(
            blocks,
            outcomes,
            first,
        ).after(blocks, outcomes, second),
    decreases second,
{
    if second > 0 {
        runs_add_up(start, blocks, outcomes, first, (second - 1) as nat);
        assert(start.after(blocks, outcomes, first + second) == start.after(
            blocks,
            outcomes,
            (first + second - 1) as nat,
        ).step(blocks, outcomes));
    }
}

/// The instruction that compares a status with a number.
pub open spec fn is_number(flag: LocalId, status: LocalId, number: i64) -> MirInstView {
    puts(
        flag,
        RvalueView::Binary {
            op: BinaryOp::Eq,
            lhs: MirValue::Local(status),
            rhs: MirValue::Int(number),
        },
    )
}

/// The instruction that makes a variant of an enum.
pub open spec fn makes(
    result: LocalId,
    enum_name: Seq<char>,
    variant_index: u32,
    payload: Option<MirValue>,
) -> MirInstView {
    puts(result, RvalueView::EnumConstruct { enum_name, variant_index, payload })
}

/// What the `Result` from a status is made by: a status of zero is a success that
/// carries the payload, any other one a failure that carries the error for it.
pub open spec fn made_from_status(
    outcome: int,
    status: LocalId,
    payload: Option<MirValue>,
    result: LocalId,
    error: LocalId,
) -> Seq<MirInstView> {
    if outcome == 0 {
        seq![makes(result, "Result"@, 0, payload)]
    } else {
        seq![
            puts(error, RvalueView::ThreadErrorFromStatus { status: MirValue::Local(status) }),
            makes(result, "Result"@, 1, Some(MirValue::Local(error))),
        ]
    }
}

/// The code of a `Result` from a status, and what it does when it runs from a point
/// where the status is known.
proof fn statuses_become_results(
    state: LowerState,
    status: LocalId,
    payload: Option<MirValue>,
    result_type: TypeView,
    run: Run,
    outcomes: Map<LocalId, int>,
)
    requires
        state.has_room(3, 3),
        run.block == state.current.0 as int,
        run.at == state.blocks[state.current.0 as int].len(),
        status.0 < state.next_local,
    ensures
        ({
            let (after, value) = state.status_result(status, payload, result_type);
            let flag = state.local_ahead(0);
            let result = state.local_ahead(1);
            let error = state.local_ahead(2);
            let steps: nat = if run.values[status] == 0 {
                4
            } else {
                5
            };
            &&& value == RvalueView::Move(result)
            &&& state.keeps_code(after)
            &&& arrives(
                run.after(after.blocks, outcomes, steps),
                after,
                run.done + seq![is_number(flag, status, 0)] + made_from_status(
                    run.values[status],
                    status,
                    payload,
                    result,
                    error,
                ),
            )
        }),
{
    reveal(LowerState::status_result);
    let c = state.current.0 as int;
    let n = state.blocks.len() as int;
    let flag = LocalId(state.next_local);
    let compare = RvalueView::Binary {
        op: BinaryOp::Eq,
        lhs: MirValue::Local(status),
        rhs: MirValue::Int(0),
    };
    typed_locals_take_the_next_number(state, TypeView::Bool);
    values_are_put_once(state.with_typed_local(TypeView::Bool), flag, compare);
    let asked = state.comparing(status, 0);
    let open = asked.with_new_block().with_new_block().with_new_block();
    let ok_block = BlockId(n as u32);
    let error_block = BlockId((n + 1) as u32);
    let join = BlockId((n + 2) as u32);
    assert(asked.next_block() == ok_block);
    assert(asked.with_new_block().next_block() == error_block);
    assert(asked.with_new_block().with_new_block().next_block() == join);
    let result = LocalId(open.next_local);
    typed_locals_take_the_next_number(open, result_type);
    let typed = open.with_typed_local(result_type);
    let fork = MirInstView::If {
        cond: MirValue::Local(flag),
        then_bb: ok_block,
        else_bb: error_block,
    };
    instructions_are_appended(typed, fork);
    let split = typed.branching(flag, ok_block, error_block);
    let success = RvalueView::EnumConstruct {
        enum_name: "Result"@,
        variant_index: 0,
        payload,
    };
    let in_ok = split.at_block(ok_block);
    values_are_put_once(in_ok, result, success);
    instructions_are_appended(in_ok.assigned(result, success), MirInstView::Goto(join));
    let succeeded = in_ok.yielding(result, "Result"@, 0, payload, join);
    let failed = succeeded.with_state(result, LocalState::Uninitialized).at_block(error_block);
    let error = LocalId(failed.next_local);
    let error_type = TypeView::Named(THREAD_ERROR_TYPE@);
    let reason = RvalueView::ThreadErrorFromStatus { status: MirValue::Local(status) };
    let failure = RvalueView::EnumConstruct {
        enum_name: "Result"@,
        variant_index: 1,
        payload: Some(MirValue::Local(error)),
    };
    typed_locals_take_the_next_number(failed, error_type);
    let with_error = failed.with_typed_local(error_type);
    values_are_put_once(with_error, error, reason);
    quiet_values_change_one_local(with_error, error, reason);
    let reasoned = with_error.assigned(error, reason);
    values_are_put_once(reasoned, result, failure);
    instructions_are_appended(reasoned.assigned(result, failure), MirInstView::Goto(join));
    let reported = reasoned.yielding(
        result,
        "Result"@,
        1,
        Some(MirValue::Local(error)),
        join,
    );
    let (after, value) = state.status_result(status, payload, result_type);
    let code = after.blocks;
    assert(code == reported.blocks);
    assert(code[c] =~= state.blocks[c].push(puts(flag, compare)).push(fork));
    assert(code[n] =~= seq![puts(result, success), MirInstView::Goto(join)]);
    assert(code[n + 1] =~= seq![
        puts(error, reason),
        puts(result, failure),
        MirInstView::Goto(join),
    ]);
    assert(code[n + 2] =~= Seq::empty());
    assert(after.current == join);
    assert(state.keeps_code(after)) by {
        assert(state.blocks[c] =~= code[c].subrange(0, state.blocks[c].len() as int));
    }
    let at = state.blocks[c].len() as int;
    let r1 = run.step(code, outcomes);
    assert(code[c][at] == puts(flag, compare));
    let r2 = r1.step(code, outcomes);
    assert(code[c][at + 1] == fork);
    let r3 = r2.step(code, outcomes);
    let r4 = r3.step(code, outcomes);
    let r5 = r4.step(code, outcomes);
    assert(run.after(code, outcomes, 4) == r4 && run.after(code, outcomes, 5) == r5) by {
        reveal_with_fuel(Run::after, 6);
    }
    let done = run.done + seq![is_number(flag, status, 0)] + made_from_status(
        run.values[status],
        status,
        payload,
        result,
        error,
    );
    if run.values[status] == 0 {
        assert(r4.done =~= done);
    } else {
        assert(r5.done =~= done);
    }
}

/// `try_lock` tries the lock once and asks once whether it was acquired. Where it
/// was, the result is `Some` of the guard; where it was not, the result is `None`.
pub proof fn a_tried_lock_gives_the_guard_exactly_if_acquired(
    state: LowerState,
    owner: LocalId,
    elem_type: TypeView,
    span: Span,
    values: Map<LocalId, int>,
    outcomes: Map<LocalId, int>,
)
    requires
        state.has_room(3, 3),
    ensures
        ({
            let (after, value) = state.trying_lock(owner, elem_type, span);
            let guard = state.local_ahead(0);
            let acquired = state.local_ahead(1);
            let result = state.local_ahead(2);
            let given = if outcomes[acquired] != 0 {
                RvalueView::EnumConstruct {
                    enum_name: "Option"@,
                    variant_index: 1,
                    payload: Some(MirValue::Local(guard)),
                }
            } else {
                RvalueView::EnumConstruct { enum_name: "Option"@, variant_index: 0, payload: None }
            };
            &&& value == RvalueView::Move(result)
            &&& state.executes(
                after,
                values,
                outcomes,
                seq![
                    puts(guard, RvalueView::MutexTryLock { base: owner, elem_type }),
                    puts(acquired, RvalueView::MutexGuardIsAcquired { guard, elem_type }),
                    puts(result, given),
                ],
            )
        }),
{
    let c = state.current.0 as int;
    let n = state.blocks.len() as int;
    let guard_type = canonical_application(MUTEX_GUARD_TYPE_CONSTRUCTOR@, elem_type);
    let guard = LocalId(state.next_local);
    let first = puts(guard, RvalueView::MutexTryLock { base: owner, elem_type });
    typed_locals_take_the_next_number(state, guard_type);
    let s1 = state.with_typed_local(guard_type);
    values_are_put_once(s1, guard, RvalueView::MutexTryLock { base: owner, elem_type });
    let tried = s1.assigned(guard, RvalueView::MutexTryLock { base: owner, elem_type });
    let acquired = LocalId(tried.next_local);
    let second = puts(acquired, RvalueView::MutexGuardIsAcquired { guard, elem_type });
    typed_locals_take_the_next_number(tried, TypeView::Bool);
    let s2 = tried.with_typed_local(TypeView::Bool);
    values_are_put_once(s2, acquired, RvalueView::MutexGuardIsAcquired { guard, elem_type });
    let asked = s2.assigned(acquired, RvalueView::MutexGuardIsAcquired { guard, elem_type });
    let open = asked.with_new_block().with_new_block().with_new_block();
    let some_block = BlockId(n as u32);
    let none_block = BlockId((n + 1) as u32);
    let join = BlockId((n + 2) as u32);
    assert(asked.next_block() == some_block);
    assert(asked.with_new_block().next_block() == none_block);
    assert(asked.with_new_block().with_new_block().next_block() == join);
    let option_type = TypeView::App { base: "Option"@, args: seq![guard_type] };
    let result = LocalId(open.next_local);
    typed_locals_take_the_next_number(open, option_type);
    let typed = open.with_typed_local(option_type);
    let marked = LowerState {
        try_lock_options: typed.try_lock_options.insert(result.0),
        ..typed
    };
    let fork = MirInstView::If {
        cond: MirValue::Local(acquired),
        then_bb: some_block,
        else_bb: none_block,
    };
    instructions_are_appended(marked, fork);
    let split = marked.pushed(fork);
    let some = RvalueView::EnumConstruct {
        enum_name: "Option"@,
        variant_index: 1,
        payload: Some(MirValue::Local(guard)),
    };
    let none = RvalueView::EnumConstruct {
        enum_name: "Option"@,
        variant_index: 0,
        payload: None,
    };
    let in_some = split.at_block(some_block);
    values_are_put_once(in_some, result, some);
    instructions_are_appended(in_some.assigned(result, some), MirInstView::Goto(join));
    let locked = in_some.assigned(result, some).pushed(MirInstView::Goto(join));
    let in_none = locked.with_state(result, LocalState::Uninitialized).at_block(
        none_block,
    ).with_state(guard, LocalState::Moved);
    values_are_put_once(in_none, result, none);
    instructions_are_appended(in_none.assigned(result, none), MirInstView::Goto(join));
    let missed = in_none.assigned(result, none).pushed(MirInstView::Goto(join));
    reveal(LowerState::registering_guard);
    let (after, value) = state.trying_lock(owner, elem_type, span);
    let code = after.blocks;
    assert(code == missed.blocks);
    assert(code[c] =~= state.blocks[c].push(first).push(second).push(fork));
    assert(code[n] =~= seq![puts(result, some), MirInstView::Goto(join)]);
    assert(code[n + 1] =~= seq![puts(result, none), MirInstView::Goto(join)]);
    assert(code[n + 2] =~= Seq::empty());
    assert(after.current == join);
    assert(state.keeps_code(after)) by {
        assert(state.blocks[c] =~= code[c].subrange(0, state.blocks[c].len() as int));
    }
    let r0 = state.upcoming(values);
    let at = state.blocks[c].len() as int;
    let r1 = r0.step(code, outcomes);
    assert(code[c][at] == first);
    let r2 = r1.step(code, outcomes);
    assert(code[c][at + 1] == second);
    let r3 = r2.step(code, outcomes);
    assert(code[c][at + 2] == fork);
    assert(r2.values[acquired] == outcomes[acquired]);
    let r4 = r3.step(code, outcomes);
    let r5 = r4.step(code, outcomes);
    assert(r0.after(code, outcomes, 5) == r5) by {
        reveal_with_fuel(Run::after, 6);
    }
    let given = if outcomes[acquired] != 0 {
        some
    } else {
        none
    };
    assert(r5.done =~= seq![first, second, puts(result, given)]);
    assert(arrives(r0.after(code, outcomes, 5), after, seq![first, second, puts(result, given)]));
}

/// Taking a value over, or reporting why not, emits no code.
proof fn taking_over_emits_nothing(state: LowerState, local: LocalId, span: Option<Span>)
    ensures
        ({
            let after = state.consuming(local, span);
            &&& after.blocks == state.blocks
            &&& after.current == state.current
            &&& after.next_local == state.next_local
            &&& after.locals == state.locals
            &&& state.well_formed() ==> after.well_formed()
        }),
{
    reveal(LowerState::consuming);
    reveal(LowerState::checking_available);
}

/// Whether a task with such a result has nothing to hand over.
pub open spec fn gives_nothing(result_type: TypeView) -> bool {
    result_type == TypeView::Void || result_type == TypeView::Tuple(Seq::empty())
}

/// The runtime call that ends a handle.
pub open spec fn handle_call(
    raw: LocalId,
    detach: bool,
    result_type: TypeView,
    out_result: LocalId,
) -> RvalueView {
    if detach {
        RvalueView::ThreadDetachUnit { handle: raw }
    } else if gives_nothing(result_type) {
        RvalueView::ThreadJoinUnit { handle: raw }
    } else {
        RvalueView::ThreadJoinResult { handle: raw, out_result, result_type }
    }
}

proof fn handles_end_once(
    state: LowerState,
    handle: LocalId,
    detach: bool,
    result_type: TypeView,
    values: Map<LocalId, int>,
    outcomes: Map<LocalId, int>,
)
    requires
        state.has_room(6, 3),
    ensures
        ({
            let (after, value) = state.joining(handle, detach, result_type);
            let raw = state.local_ahead(0);
            let status = state.local_ahead(1);
            let out = state.local_ahead(2);
            let unit = detach || gives_nothing(result_type);
            let next: int = if unit {
                2
            } else {
                3
            };
            let payload = if unit {
                MirValue::Unit
            } else {
                MirValue::Local(out)
            };
            &&& value == RvalueView::Move(state.local_ahead(next + 1))
            &&& state.executes(
                after,
                values,
                outcomes,
                seq![
                    puts(raw, RvalueView::ThreadHandleIntoRaw { handle }),
                    puts(status, handle_call(raw, detach, result_type, out)),
                    MirInstView::DropThreadHandle(raw),
                    is_number(state.local_ahead(next), status, 0),
                ] + made_from_status(
                    outcomes[status],
                    status,
                    Some(payload),
                    state.local_ahead(next + 1),
                    state.local_ahead(next + 2),
                ),
            )
        }),
{
    reveal(LowerState::joining);
    let c = state.current.0 as int;
    let raw = LocalId(state.next_local);
    let unit = detach || gives_nothing(result_type);
    assert(is_unit(result_type) == gives_nothing(result_type)) by {
        match result_type {
            TypeView::Tuple(elements) => {
                if elements.len() == 0 {
                    assert(elements =~= Seq::empty());
                }
            },
            _ => {},
        }
    }
    let take = RvalueView::ThreadHandleIntoRaw { handle };
    handle_locals_take_the_next_number(state, raw_handle_view());
    let s1 = state.with_thread_handle_local(raw_handle_view());
    values_are_put_once(s1, raw, take);
    let taken = s1.assigned(raw, take);
    let status = LocalId(taken.next_local);
    typed_locals_take_the_next_number(taken, TypeView::I32);
    let ready = taken.with_typed_local(TypeView::I32);
    let out = LocalId(ready.next_local);
    typed_locals_take_the_next_number(ready, result_type);
    let placed = if unit {
        ready
    } else {
        ready.with_typed_local(result_type).with_state(out, LocalState::Uninitialized)
    };
    assert(placed.state_of(status) == Some(LocalState::Uninitialized));
    let call = handle_call(raw, detach, result_type, out);
    values_are_put_once(placed, status, call);
    let called = placed.assigned(status, call);
    let end = MirInstView::DropThreadHandle(raw);
    instructions_are_appended(called, end);
    let ended = called.finishing_handle(raw);
    let payload = if unit {
        MirValue::Unit
    } else {
        MirValue::Local(out)
    };
    let ty = if unit {
        thread_result_view(TypeView::Void)
    } else {
        thread_result_view(result_type)
    };
    let (after, value) = state.joining(handle, detach, result_type);
    assert((after, value) == ended.status_result(status, Some(payload), ty));
    let before = state.blocks[c];
    assert(ended.blocks[c] =~= before.push(puts(raw, take)).push(puts(status, call)).push(end));
    let r0 = state.upcoming(values);
    let at = before.len() as int;
    let code = after.blocks;
    let run = Run {
        block: c,
        at: at + 3,
        values: r0.values.insert(raw, outcomes[raw]).insert(status, outcomes[status]),
        done: seq![puts(raw, take), puts(status, call), end],
    };
    statuses_become_results(ended, status, Some(payload), ty, run, outcomes);
    let grown = ended.blocks[c];
    assert forall|j: int| 0 <= j < grown.len() implies code[c][j] == grown[j] by {
        assert(code[c].subrange(0, grown.len() as int)[j] == grown[j]);
    }
    assert(state.keeps_code(after)) by {
        assert(before =~= code[c].subrange(0, before.len() as int));
        assert forall|j: int| 0 <= j < state.blocks.len() && j != c implies code[j]
            == #[trigger] state.blocks[j] by {
            assert(ended.blocks[j] == state.blocks[j]);
        }
    }
    let r1 = r0.step(code, outcomes);
    assert(grown[at] == puts(raw, take) && code[c][at] == grown[at]);
    let r2 = r1.step(code, outcomes);
    assert(grown[at + 1] == puts(status, call) && code[c][at + 1] == grown[at + 1]);
    let r3 = r2.step(code, outcomes);
    assert(code[c][at + 2] == end);
    assert(r3.done =~= run.done);
    assert(r3 == run);
    assert(r0.after(code, outcomes, 3) == r3) by {
        reveal_with_fuel(Run::after, 4);
    }
    let steps: nat = if outcomes[status] == 0 {
        4
    } else {
        5
    };
    runs_add_up(r0, code, outcomes, 3, steps);
    let next: int = if unit {
        2
    } else {
        3
    };
    let tail = made_from_status(
        outcomes[status],
        status,
        Some(payload),
        state.local_ahead(next + 1),
        state.local_ahead(next + 2),
    );
    let flag = is_number(state.local_ahead(next), status, 0);
    assert(run.done + seq![flag] + tail =~= seq![
        puts(raw, take),
        puts(status, call),
        end,
        flag,
    ] + tail);
    assert(arrives(
        r0.after(code, outcomes, 3 + steps),
        after,
        seq![puts(raw, take), puts(status, call), end, flag] + tail,
    ));
}

/// `join` waits for the thread and `detach` lets it go: each makes exactly one
/// runtime call on the handle that it is given, which is used up by it. A status of
/// zero is a success, which carries what the task gave; any other status is the
/// error that it stands for.
pub proof fn joining_waits_and_detaching_lets_go(
    state: LowerState,
    handle: LocalId,
    result_type: TypeView,
    detach: bool,
    span: Span,
    values: Map<LocalId, int>,
    outcomes: Map<LocalId, int>,
)
    requires
        state.has_room(6, 3),
        state.state_of(handle) == Some(LocalState::Moved) || state.is_consumable(handle),
    ensures
        ({
            let handle_type = TypeView::App { base: THREAD_HANDLE_TYPE@, args: seq![result_type] };
            let lowered = LoweredView { value: MirValue::Local(handle), ty: Some(handle_type) };
            let (after, value) = state.finishing_thread_method(
                handle_type,
                detach,
                Some(lowered),
                span,
            );
            let raw = state.local_ahead(0);
            let status = state.local_ahead(1);
            let unit = detach || gives_nothing(result_type);
            let next: int = if unit {
                2
            } else {
                3
            };
            &&& value == Some(Some(RvalueView::Move(state.local_ahead(next + 1))))
            &&& state.executes(
                after,
                values,
                outcomes,
                seq![
                    puts(raw, RvalueView::ThreadHandleIntoRaw { handle }),
                    puts(
                        status,
                        if detach {
                            RvalueView::ThreadDetachUnit { handle: raw }
                        } else if gives_nothing(result_type) {
                            RvalueView::ThreadJoinUnit { handle: raw }
                        } else {
                            RvalueView::ThreadJoinResult {
                                handle: raw,
                                out_result: state.local_ahead(2),
                                result_type,
                            }
                        },
                    ),
                    MirInstView::DropThreadHandle(raw),
                    is_number(state.local_ahead(next), status, 0),
                ] + made_from_status(
                    outcomes[status],
                    status,
                    Some(
                        if unit {
                            MirValue::Unit
                        } else {
                            MirValue::Local(state.local_ahead(2))
                        },
                    ),
                    state.local_ahead(next + 1),
                    state.local_ahead(next + 2),
                ),
            )
        }),
{
    taking_over_emits_nothing(state, handle, Some(span));
    let owned = if state.state_of(handle) == Some(LocalState::Moved) {
        state
    } else {
        state.consuming(handle, Some(span))
    };
    handles_end_once(owned, handle, detach, result_type, values, outcomes);
}

/// The start of a thread, once the task is known to be allowed to cross.
proof fn threads_start_once(
    state: LowerState,
    task: LocalId,
    result: TypeView,
    values: Map<LocalId, int>,
    outcomes: Map<LocalId, int>,
)
    requires
        state.has_room(6, 3),
    ensures
        ({
            let (after, value) = state.spawning(task, result);
            let raw = state.local_ahead(0);
            let status = state.local_ahead(1);
            let handle = state.local_ahead(2);
            &&& value == Some(RvalueView::Move(state.local_ahead(4)))
            &&& state.executes(
                after,
                values,
                outcomes,
                seq![
                    puts(
                        status,
                        if result == TypeView::Void {
                            RvalueView::ThreadSpawnUnit { task, out_handle: raw }
                        } else {
                            RvalueView::ThreadSpawnResult {
                                task,
                                out_handle: raw,
                                result_type: result,
                            }
                        },
                    ),
                    puts(handle, RvalueView::ThreadHandleFromRaw { raw }),
                    is_number(state.local_ahead(3), status, 0),
                ] + made_from_status(
                    outcomes[status],
                    status,
                    Some(MirValue::Local(handle)),
                    state.local_ahead(4),
                    state.local_ahead(5),
                ),
            )
        }),
{
    reveal(LowerState::spawning);
    let c = state.current.0 as int;
    let raw = LocalId(state.next_local);
    handle_locals_take_the_next_number(state, raw_handle_view());
    let ready = state.with_thread_handle_local(raw_handle_view()).with_state(
        raw,
        LocalState::Initialized,
    );
    let status = LocalId(ready.next_local);
    let start = if result is Void {
        RvalueView::ThreadSpawnUnit { task, out_handle: raw }
    } else {
        RvalueView::ThreadSpawnResult { task, out_handle: raw, result_type: result }
    };
    typed_locals_take_the_next_number(ready, TypeView::I32);
    let s1 = ready.with_typed_local(TypeView::I32);
    values_are_put_once(s1, status, start);
    let started = s1.assigned(status, start);
    let handle_type = canonical_application(THREAD_HANDLE_TYPE@, result);
    let handle = LocalId(started.next_local);
    let wrap = RvalueView::ThreadHandleFromRaw { raw };
    typed_locals_take_the_next_number(started, handle_type);
    let s2 = started.with_typed_local(handle_type);
    values_are_put_once(s2, handle, wrap);
    let wrapped = s2.assigned(handle, wrap);
    let (after, value) = state.spawning(task, result);
    let payload = Some(MirValue::Local(handle));
    let ty = thread_result_view(handle_type);
    let before = state.blocks[c];
    assert(wrapped.blocks[c] =~= before.push(puts(status, start)).push(puts(handle, wrap)));
    let r0 = state.upcoming(values);
    let at = before.len() as int;
    let code = after.blocks;
    let run = Run {
        block: c,
        at: at + 2,
        values: r0.values.insert(status, outcomes[status]).insert(handle, outcomes[handle]),
        done: seq![puts(status, start), puts(handle, wrap)],
    };
    statuses_become_results(wrapped, status, payload, ty, run, outcomes);
    let grown = wrapped.blocks[c];
    assert forall|j: int| 0 <= j < grown.len() implies code[c][j] == grown[j] by {
        assert(code[c].subrange(0, grown.len() as int)[j] == grown[j]);
    }
    assert(state.keeps_code(after)) by {
        assert(before =~= code[c].subrange(0, before.len() as int));
        assert forall|j: int| 0 <= j < state.blocks.len() && j != c implies code[j]
            == #[trigger] state.blocks[j] by {
            assert(wrapped.blocks[j] == state.blocks[j]);
        }
    }
    let r1 = r0.step(code, outcomes);
    assert(grown[at] == puts(status, start) && code[c][at] == grown[at]);
    let r2 = r1.step(code, outcomes);
    assert(code[c][at + 1] == puts(handle, wrap));
    assert(r2.done =~= run.done);
    assert(r2 == run);
    assert(r0.after(code, outcomes, 2) == r2) by {
        reveal_with_fuel(Run::after, 3);
    }
    let steps: nat = if outcomes[status] == 0 {
        4
    } else {
        5
    };
    runs_add_up(r0, code, outcomes, 2, steps);
    let tail = made_from_status(
        outcomes[status],
        status,
        payload,
        state.local_ahead(4),
        state.local_ahead(5),
    );
    let flag = is_number(state.local_ahead(3), status, 0);
    assert(run.done + seq![flag] + tail =~= seq![puts(status, start), puts(handle, wrap), flag]
        + tail);
    assert(arrives(
        r0.after(code, outcomes, 2 + steps),
        after,
        seq![puts(status, start), puts(handle, wrap), flag] + tail,
    ));
}

/// The code after a receive attempt, and what it does when it runs.
proof fn received_items_are_handed_out(
    state: LowerState,
    status: LocalId,
    value: LocalId,
    item: TypeView,
    run: Run,
    outcomes: Map<LocalId, int>,
)
    requires
        state.has_room(3, 5),
        run.block == state.current.0 as int,
        run.at == state.blocks[state.current.0 as int].len(),
        status.0 < state.next_local,
        value.0 < state.next_local,
    ensures
        ({
            let (after, outcome) = state.received(status, value, item);
            let flag = state.local_ahead(0);
            let result = state.local_ahead(1);
            let other = state.local_ahead(2);
            let steps: nat = if run.values[status] == 0 {
                4
            } else {
                6
            };
            &&& outcome == RvalueView::Move(result)
            &&& state.keeps_code(after)
            &&& arrives(
                run.after(after.blocks, outcomes, steps),
                after,
                run.done + seq![is_number(flag, status, 0)] + (if run.values[status] == 0 {
                    seq![makes(result, "TryRecvResult"@, 0, Some(MirValue::Local(value)))]
                } else {
                    seq![
                        is_number(other, status, 1),
                        makes(
                            result,
                            "TryRecvResult"@,
                            if run.values[status] == 1 {
                                1
                            } else {
                                2
                            },
                            None,
                        ),
                    ]
                }),
            )
        }),
{
    let c = state.current.0 as int;
    let n = state.blocks.len() as int;
    let flag = LocalId(state.next_local);
    let compare = RvalueView::Binary {
        op: BinaryOp::Eq,
        lhs: MirValue::Local(status),
        rhs: MirValue::Int(0),
    };
    typed_locals_take_the_next_number(state, TypeView::Bool);
    values_are_put_once(state.with_typed_local(TypeView::Bool), flag, compare);
    let asked = state.comparing(status, 0);
    let first_block = BlockId(n as u32);
    let other_block = BlockId((n + 1) as u32);
    let second_block = BlockId((n + 2) as u32);
    let third_block = BlockId((n + 3) as u32);
    let join = BlockId((n + 4) as u32);
    let b1 = asked.with_new_block();
    let b2 = b1.with_new_block();
    let b3 = b2.with_new_block();
    let b4 = b3.with_new_block();
    let joined = b4.with_new_block();
    assert(asked.next_block() == first_block);
    assert(b1.next_block() == other_block);
    assert(b2.next_block() == second_block);
    assert(b3.next_block() == third_block);
    assert(b4.next_block() == join);
    let result = LocalId(joined.next_local);
    let result_type = TypeView::App { base: RECV_RESULT@, args: seq![item] };
    typed_locals_take_the_next_number(joined, result_type);
    let typed = joined.with_typed_local(result_type);
    let fork = MirInstView::If {
        cond: MirValue::Local(flag),
        then_bb: first_block,
        else_bb: other_block,
    };
    instructions_are_appended(typed, fork);
    let split = typed.branching(flag, first_block, other_block);
    let leave = MirInstView::Goto(join);
    let first = RvalueView::EnumConstruct {
        enum_name: RECV_RESULT@,
        variant_index: 0,
        payload: Some(MirValue::Local(value)),
    };
    let second = RvalueView::EnumConstruct {
        enum_name: RECV_RESULT@,
        variant_index: 1,
        payload: None,
    };
    let third = RvalueView::EnumConstruct {
        enum_name: RECV_RESULT@,
        variant_index: 2,
        payload: None,
    };
    let in_first = split.at_block(first_block).with_state(value, LocalState::Initialized);
    values_are_put_once(in_first, result, first);
    instructions_are_appended(in_first.assigned(result, first), leave);
    let first_done = in_first.assigned(result, first).pushed(leave);
    let in_other = first_done.with_state(result, LocalState::Uninitialized).at_block(other_block);
    let other = LocalId(in_other.next_local);
    let compare_again = RvalueView::Binary {
        op: BinaryOp::Eq,
        lhs: MirValue::Local(status),
        rhs: MirValue::Int(1),
    };
    typed_locals_take_the_next_number(in_other, TypeView::Bool);
    let with_flag = in_other.with_typed_local(TypeView::Bool);
    values_are_put_once(with_flag, other, compare_again);
    quiet_values_change_one_local(with_flag, other, compare_again);
    let asked_again = in_other.comparing(status, 1);
    let fork_again = MirInstView::If {
        cond: MirValue::Local(other),
        then_bb: second_block,
        else_bb: third_block,
    };
    instructions_are_appended(asked_again, fork_again);
    let parted = asked_again.branching(other, second_block, third_block);
    let in_second = parted.at_block(second_block);
    values_are_put_once(in_second, result, second);
    instructions_are_appended(in_second.assigned(result, second), leave);
    let second_done = in_second.assigned(result, second).pushed(leave);
    let in_third = second_done.with_state(result, LocalState::Uninitialized).at_block(third_block);
    values_are_put_once(in_third, result, third);
    instructions_are_appended(in_third.assigned(result, third), leave);
    let third_done = in_third.assigned(result, third).pushed(leave);
    let (after, outcome) = state.received(status, value, item);
    let code = after.blocks;
    assert(code == third_done.blocks);
    assert(code[c] =~= state.blocks[c].push(puts(flag, compare)).push(fork));
    assert(code[n] =~= seq![puts(result, first), leave]);
    assert(code[n + 1] =~= seq![puts(other, compare_again), fork_again]);
    assert(code[n + 2] =~= seq![puts(result, second), leave]);
    assert(code[n + 3] =~= seq![puts(result, third), leave]);
    assert(code[n + 4] =~= Seq::empty());
    assert(after.current == join);
    assert(state.keeps_code(after)) by {
        assert(state.blocks[c] =~= code[c].subrange(0, state.blocks[c].len() as int));
    }
    let at = state.blocks[c].len() as int;
    let r1 = run.step(code, outcomes);
    assert(code[c][at] == puts(flag, compare));
    let r2 = r1.step(code, outcomes);
    assert(code[c][at + 1] == fork);
    let r3 = r2.step(code, outcomes);
    let r4 = r3.step(code, outcomes);
    let r5 = r4.step(code, outcomes);
    let r6 = r5.step(code, outcomes);
    assert(run.after(code, outcomes, 4) == r4 && run.after(code, outcomes, 6) == r6) by {
        reveal_with_fuel(Run::after, 7);
    }
    let head = run.done + seq![is_number(flag, status, 0)];
    if run.values[status] == 0 {
        assert(r2.block == n);
        assert(r4.done =~= head + seq![puts(result, first)]);
    } else {
        assert(r2.block == n + 1);
        assert(r3.values[status] == run.values[status]);
        let given = if run.values[status] == 1 {
            second
        } else {
            third
        };
        assert(r6.done =~= head + seq![puts(other, compare_again), puts(result, given)]);
    }
}

/// The code after a send attempt, and what it does when it runs.
proof fn unsent_items_are_given_back(
    state: LowerState,
    status: LocalId,
    unsent: LocalId,
    item: TypeView,
    run: Run,
    outcomes: Map<LocalId, int>,
)
    requires
        state.has_room(3, 5),
        run.block == state.current.0 as int,
        run.at == state.blocks[state.current.0 as int].len(),
        status.0 < state.next_local,
        unsent.0 < state.next_local,
    ensures
        ({
            let (after, outcome) = state.sent(status, unsent, item);
            let flag = state.local_ahead(0);
            let result = state.local_ahead(1);
            let other = state.local_ahead(2);
            let steps: nat = if run.values[status] == 0 {
                4
            } else {
                6
            };
            &&& outcome == RvalueView::Move(result)
            &&& state.keeps_code(after)
            &&& arrives(
                run.after(after.blocks, outcomes, steps),
                after,
                run.done + seq![is_number(flag, status, 0)] + (if run.values[status] == 0 {
                    seq![makes(result, "TrySendResult"@, 0, None)]
                } else {
                    seq![
                        is_number(other, status, 1),
                        makes(
                            result,
                            "TrySendResult"@,
                            if run.values[status] == 1 {
                                1
                            } else {
                                2
                            },
                            Some(MirValue::Local(unsent)),
                        ),
                    ]
                }),
            )
        }),
{
    let c = state.current.0 as int;
    let n = state.blocks.len() as int;
    let flag = LocalId(state.next_local);
    let compare = RvalueView::Binary {
        op: BinaryOp::Eq,
        lhs: MirValue::Local(status),
        rhs: MirValue::Int(0),
    };
    typed_locals_take_the_next_number(state, TypeView::Bool);
    values_are_put_once(state.with_typed_local(TypeView::Bool), flag, compare);
    let asked = state.comparing(status, 0);
    let first_block = BlockId(n as u32);
    let other_block = BlockId((n + 1) as u32);
    let second_block = BlockId((n + 2) as u32);
    let third_block = BlockId((n + 3) as u32);
    let join = BlockId((n + 4) as u32);
    let b1 = asked.with_new_block();
    let b2 = b1.with_new_block();
    let b3 = b2.with_new_block();
    let b4 = b3.with_new_block();
    let joined = b4.with_new_block();
    assert(asked.next_block() == first_block);
    assert(b1.next_block() == other_block);
    assert(b2.next_block() == second_block);
    assert(b3.next_block() == third_block);
    assert(b4.next_block() == join);
    let result = LocalId(joined.next_local);
    let result_type = TypeView::App { base: SEND_RESULT@, args: seq![item] };
    typed_locals_take_the_next_number(joined, result_type);
    let typed = joined.with_typed_local(result_type);
    let fork = MirInstView::If {
        cond: MirValue::Local(flag),
        then_bb: first_block,
        else_bb: other_block,
    };
    instructions_are_appended(typed, fork);
    let split = typed.branching(flag, first_block, other_block);
    let leave = MirInstView::Goto(join);
    let first = RvalueView::EnumConstruct {
        enum_name: SEND_RESULT@,
        variant_index: 0,
        payload: None,
    };
    let second = RvalueView::EnumConstruct {
        enum_name: SEND_RESULT@,
        variant_index: 1,
        payload: Some(MirValue::Local(unsent)),
    };
    let third = RvalueView::EnumConstruct {
        enum_name: SEND_RESULT@,
        variant_index: 2,
        payload: Some(MirValue::Local(unsent)),
    };
    let in_first = split.at_block(first_block);
    values_are_put_once(in_first, result, first);
    instructions_are_appended(in_first.assigned(result, first), leave);
    let first_done = in_first.assigned(result, first).pushed(leave);
    let in_other = first_done.with_state(result, LocalState::Uninitialized).at_block(other_block);
    let other = LocalId(in_other.next_local);
    let compare_again = RvalueView::Binary {
        op: BinaryOp::Eq,
        lhs: MirValue::Local(status),
        rhs: MirValue::Int(1),
    };
    typed_locals_take_the_next_number(in_other, TypeView::Bool);
    let with_flag = in_other.with_typed_local(TypeView::Bool);
    values_are_put_once(with_flag, other, compare_again);
    quiet_values_change_one_local(with_flag, other, compare_again);
    let asked_again = in_other.comparing(status, 1);
    let fork_again = MirInstView::If {
        cond: MirValue::Local(other),
        then_bb: second_block,
        else_bb: third_block,
    };
    instructions_are_appended(asked_again, fork_again);
    let parted = asked_again.branching(other, second_block, third_block);
    let in_second = parted.at_block(second_block).with_state(unsent, LocalState::Initialized);
    values_are_put_once(in_second, result, second);
    instructions_are_appended(in_second.assigned(result, second), leave);
    let second_done = in_second.assigned(result, second).pushed(leave);
    let in_third = second_done.with_state(result, LocalState::Uninitialized).at_block(
        third_block,
    ).with_state(unsent, LocalState::Initialized);
    values_are_put_once(in_third, result, third);
    instructions_are_appended(in_third.assigned(result, third), leave);
    let third_done = in_third.assigned(result, third).pushed(leave);
    let (after, outcome) = state.sent(status, unsent, item);
    let code = after.blocks;
    assert(code == third_done.blocks);
    assert(code[c] =~= state.blocks[c].push(puts(flag, compare)).push(fork));
    assert(code[n] =~= seq![puts(result, first), leave]);
    assert(code[n + 1] =~= seq![puts(other, compare_again), fork_again]);
    assert(code[n + 2] =~= seq![puts(result, second), leave]);
    assert(code[n + 3] =~= seq![puts(result, third), leave]);
    assert(code[n + 4] =~= Seq::empty());
    assert(after.current == join);
    assert(state.keeps_code(after)) by {
        assert(state.blocks[c] =~= code[c].subrange(0, state.blocks[c].len() as int));
    }
    let at = state.blocks[c].len() as int;
    let r1 = run.step(code, outcomes);
    assert(code[c][at] == puts(flag, compare));
    let r2 = r1.step(code, outcomes);
    assert(code[c][at + 1] == fork);
    let r3 = r2.step(code, outcomes);
    let r4 = r3.step(code, outcomes);
    let r5 = r4.step(code, outcomes);
    let r6 = r5.step(code, outcomes);
    assert(run.after(code, outcomes, 4) == r4 && run.after(code, outcomes, 6) == r6) by {
        reveal_with_fuel(Run::after, 7);
    }
    let head = run.done + seq![is_number(flag, status, 0)];
    if run.values[status] == 0 {
        assert(r2.block == n);
        assert(r4.done =~= head + seq![puts(result, first)]);
    } else {
        assert(r2.block == n + 1);
        assert(r3.values[status] == run.values[status]);
        let given = if run.values[status] == 1 {
            second
        } else {
            third
        };
        assert(r6.done =~= head + seq![puts(other, compare_again), puts(result, given)]);
    }
}

/// The point after one more runtime call.
spec fn after_attempt(
    state: LowerState,
    status: LocalId,
    attempt: RvalueView,
    values: Map<LocalId, int>,
    outcomes: Map<LocalId, int>,
) -> Run {
    let start = state.upcoming(values);
    Run {
        block: start.block,
        at: start.at + 1,
        values: values.insert(status, outcomes[status]),
        done: seq![puts(status, attempt)],
    }
}

/// Whether an rvalue is an attempt on a channel.
spec fn is_attempt(value: RvalueView) -> bool {
    value is SpscTryRecv || value is SpscTrySend
}

proof fn attempts_are_followed_up(
    state: LowerState,
    tried: LowerState,
    status: LocalId,
    attempt: RvalueView,
    values: Map<LocalId, int>,
    outcomes: Map<LocalId, int>,
)
    requires
        state.well_formed(),
        tried.well_formed(),
        tried.current == state.current,
        tried.blocks == state.blocks.update(
            state.current.0 as int,
            state.blocks[state.current.0 as int].push(puts(status, attempt)),
        ),
        is_attempt(attempt),
    ensures
        after_attempt(state, status, attempt, values, outcomes).at
            == tried.blocks[tried.current.0 as int].len(),
        !tried.terminated(),
        state.keeps_code(tried),
{
    let c = state.current.0 as int;
    assert(tried.blocks[c].last() == puts(status, attempt));
    assert(state.blocks[c] =~= tried.blocks[c].subrange(0, state.blocks[c].len() as int));
}

/// The run through an attempt goes on where the code after it begins.
proof fn attempts_lead_on(
    state: LowerState,
    tried: LowerState,
    after: LowerState,
    status: LocalId,
    attempt: RvalueView,
    values: Map<LocalId, int>,
    outcomes: Map<LocalId, int>,
    tail: Seq<MirInstView>,
)
    requires
        state.well_formed(),
        tried.current == state.current,
        tried.blocks == state.blocks.update(
            state.current.0 as int,
            state.blocks[state.current.0 as int].push(puts(status, attempt)),
        ),
        is_attempt(attempt),
        tried.keeps_code(after),
        ({
            let steps: nat = if outcomes[status] == 0 {
                4
            } else {
                6
            };
            arrives(
                after_attempt(state, status, attempt, values, outcomes).after(
                    after.blocks,
                    outcomes,
                    steps,
                ),
                after,
                seq![puts(status, attempt)] + seq![is_number(tried.local_ahead(0), status, 0)] + tail,
            )
        }),
    ensures
        state.executes(
            after,
            values,
            outcomes,
            seq![puts(status, attempt), is_number(tried.local_ahead(0), status, 0)] + tail,
        ),
{
    let c = state.current.0 as int;
    let before = state.blocks[c];
    let grown = tried.blocks[c];
    let code = after.blocks;
    let at = before.len() as int;
    assert(grown[at] == puts(status, attempt));
    assert forall|j: int| 0 <= j < grown.len() implies code[c][j] == grown[j] by {
        assert(code[c].subrange(0, grown.len() as int)[j] == grown[j]);
    }
    assert(code[c][at] == grown[at]);
    assert(state.keeps_code(after)) by {
        assert(before =~= code[c].subrange(0, before.len() as int));
        assert forall|j: int| 0 <= j < state.blocks.len() && j != c implies code[j]
            == #[trigger] state.blocks[j] by {
            assert(tried.blocks[j] == state.blocks[j]);
        }
    }
    let r0 = state.upcoming(values);
    let r1 = r0.step(code, outcomes);
    let run = after_attempt(state, status, attempt, values, outcomes);
    assert(r1.done =~= run.done);
    assert(r1 == run);
    assert(r0.after(code, outcomes, 1) == r1) by {
        reveal_with_fuel(Run::after, 2);
    }
    let steps: nat = if outcomes[status] == 0 {
        4
    } else {
        6
    };
    runs_add_up(r0, code, outcomes, 1, steps);
    let flag = is_number(tried.local_ahead(0), status, 0);
    assert(seq![puts(status, attempt)] + seq![flag] + tail =~= seq![
        puts(status, attempt),
        flag,
    ] + tail);
    assert(arrives(
        r0.after(code, outcomes, 1 + steps),
        after,
        seq![puts(status, attempt), flag] + tail,
    ));
}

/// `try_recv` makes one attempt. A status of zero gives the received item out; one
/// is an empty channel and anything else a closed one, which give nothing.
pub proof fn a_received_item_is_handed_out(
    state: LowerState,
    receiver: LocalId,
    item: TypeView,
    values: Map<LocalId, int>,
    outcomes: Map<LocalId, int>,
)
    requires
        state.has_room(5, 5),
    ensures
        ({
            let (after, outcome) = state.receiving(receiver, item);
            let value = state.local_ahead(0);
            let status = state.local_ahead(1);
            let result = state.local_ahead(3);
            &&& outcome == RvalueView::Move(result)
            &&& state.executes(
                after,
                values,
                outcomes,
                seq![
                    puts(
                        status,
                        RvalueView::SpscTryRecv { receiver, out_value: value, elem_type: item },
                    ),
                    is_number(state.local_ahead(2), status, 0),
                ] + (if outcomes[status] == 0 {
                    seq![makes(result, "TryRecvResult"@, 0, Some(MirValue::Local(value)))]
                } else {
                    seq![
                        is_number(state.local_ahead(4), status, 1),
                        makes(
                            result,
                            "TryRecvResult"@,
                            if outcomes[status] == 1 {
                                1
                            } else {
                                2
                            },
                            None,
                        ),
                    ]
                }),
            )
        }),
{
    let c = state.current.0 as int;
    let value = LocalId(state.next_local);
    typed_locals_take_the_next_number(state, item);
    let with_value = state.with_typed_local(item);
    let status = LocalId(with_value.next_local);
    let attempt = RvalueView::SpscTryRecv { receiver, out_value: value, elem_type: item };
    typed_locals_take_the_next_number(with_value, TypeView::I32);
    let with_status = with_value.with_typed_local(TypeView::I32);
    values_are_put_once(with_status, status, attempt);
    let tried = with_status.assigned(status, attempt);
    attempts_are_followed_up(state, tried, status, attempt, values, outcomes);
    let run = after_attempt(state, status, attempt, values, outcomes);
    received_items_are_handed_out(tried, status, value, item, run, outcomes);
    let (after, outcome) = state.receiving(receiver, item);
    let tail = if outcomes[status] == 0 {
        seq![makes(state.local_ahead(3), "TryRecvResult"@, 0, Some(MirValue::Local(value)))]
    } else {
        seq![
            is_number(state.local_ahead(4), status, 1),
            makes(
                state.local_ahead(3),
                "TryRecvResult"@,
                if outcomes[status] == 1 {
                    1
                } else {
                    2
                },
                None,
            ),
        ]
    };
    attempts_lead_on(state, tried, after, status, attempt, values, outcomes, tail);
}

/// `try_send` makes one attempt with the item that it is given. A status of zero
/// means that the item is gone; one is a full channel and anything else a closed
/// one, and either gives the item back.
pub proof fn an_unsent_item_is_given_back(
    state: LowerState,
    sender: LocalId,
    sent: LocalId,
    item: TypeView,
    span: Span,
    values: Map<LocalId, int>,
    outcomes: Map<LocalId, int>,
)
    requires
        state.has_room(5, 5),
    ensures
        ({
            let lowered = LoweredView { value: MirValue::Local(sent), ty: Some(item) };
            let (after, outcome) = state.sending(sender, item, Some(lowered), span);
            let unsent = state.local_ahead(0);
            let status = state.local_ahead(1);
            let result = state.local_ahead(3);
            &&& outcome == Some(RvalueView::Move(result))
            &&& state.executes(
                after,
                values,
                outcomes,
                seq![
                    puts(
                        status,
                        RvalueView::SpscTrySend {
                            sender,
                            value: sent,
                            out_unsent: unsent,
                            elem_type: item,
                        },
                    ),
                    is_number(state.local_ahead(2), status, 0),
                ] + (if outcomes[status] == 0 {
                    seq![makes(result, "TrySendResult"@, 0, None)]
                } else {
                    seq![
                        is_number(state.local_ahead(4), status, 1),
                        makes(
                            result,
                            "TrySendResult"@,
                            if outcomes[status] == 1 {
                                1
                            } else {
                                2
                            },
                            Some(MirValue::Local(unsent)),
                        ),
                    ]
                }),
            )
        }),
{
    let lowered = LoweredView { value: MirValue::Local(sent), ty: Some(item) };
    let unsent = LocalId(state.next_local);
    typed_locals_take_the_next_number(state, item);
    let with_unsent = state.with_typed_local(item);
    let status = LocalId(with_unsent.next_local);
    let attempt = RvalueView::SpscTrySend {
        sender,
        value: sent,
        out_unsent: unsent,
        elem_type: item,
    };
    typed_locals_take_the_next_number(with_unsent, TypeView::I32);
    let with_status = with_unsent.with_typed_local(TypeView::I32);
    values_are_put_once(with_status, status, attempt);
    let tried = with_status.assigned(status, attempt);
    attempts_are_followed_up(state, tried, status, attempt, values, outcomes);
    let run = after_attempt(state, status, attempt, values, outcomes);
    unsent_items_are_given_back(tried, status, unsent, item, run, outcomes);
    let (after, outcome) = state.sending(sender, item, Some(lowered), span);
    let tail = if outcomes[status] == 0 {
        seq![makes(state.local_ahead(3), "TrySendResult"@, 0, None)]
    } else {
        seq![
            is_number(state.local_ahead(4), status, 1),
            makes(
                state.local_ahead(3),
                "TrySendResult"@,
                if outcomes[status] == 1 {
                    1
                } else {
                    2
                },
                Some(MirValue::Local(unsent)),
            ),
        ]
    };
    attempts_lead_on(state, tried, after, status, attempt, values, outcomes, tail);
}

/// A value in a fresh local takes one instruction.
proof fn one_value_takes_one_instruction(
    state: LowerState,
    ty: TypeView,
    value: RvalueView,
    values: Map<LocalId, int>,
    outcomes: Map<LocalId, int>,
)
    requires
        state.has_room(1, 0),
    ensures
        ({
            let local = state.local_ahead(0);
            let after = state.with_typed_local(ty).assigned(local, value);
            &&& after.well_formed()
            &&& after.current == state.current
            &&& after.next_local == state.next_local + 1
            &&& after.locals.len() == state.locals.len() + 1
            &&& after.blocks == state.blocks.update(
                state.current.0 as int,
                state.blocks[state.current.0 as int].push(puts(local, value)),
            )
            &&& !after.terminated()
            &&& state.executes(after, values, outcomes, seq![puts(local, value)])
        }),
{
    let c = state.current.0 as int;
    let local = LocalId(state.next_local);
    typed_locals_take_the_next_number(state, ty);
    let typed = state.with_typed_local(ty);
    values_are_put_once(typed, local, value);
    let after = typed.assigned(local, value);
    let code = after.blocks;
    assert(code[c].last() == puts(local, value));
    assert(state.keeps_code(after)) by {
        assert(state.blocks[c] =~= code[c].subrange(0, state.blocks[c].len() as int));
    }
    let r0 = state.upcoming(values);
    let r1 = r0.step(code, outcomes);
    assert(r1.done =~= seq![puts(local, value)]);
    assert(r0.after(code, outcomes, 1) == r1) by {
        reveal_with_fuel(Run::after, 2);
    }
    assert(arrives(r0.after(code, outcomes, 1), after, seq![puts(local, value)]));
}

/// Whether a receiver names a local whose value has the given type and can be read.
pub open spec fn names_readable(
    state: LowerState,
    receiver: Expr,
    local: LocalId,
    ty: TypeView,
) -> bool {
    &&& receiver matches Expr::Ident(name, _) && value_of(state.bindings, name.0@) == Some(local)
    &&& state.local_type(local) == Some(ty)
    &&& state.is_available(local)
}

/// The application of a constructor to one argument.
pub open spec fn applied(constructor: Seq<char>, inner: TypeView) -> TypeView {
    TypeView::App { base: constructor, args: seq![inner] }
}

/// A value that can be read is not reported.
proof fn readable_values_pass(state: LowerState, local: LocalId, span: Option<Span>)
    requires
        state.is_available(local),
    ensures
        state.checking_available(local, span) == state,
{
    reveal(LowerState::is_available);
    reveal(LowerState::checking_available);
}

proof fn method_names_differ()
    ensures
        "lock"@ != "try_lock"@,
        "lock"@ != "borrow"@,
        "lock"@ != "borrow_mut"@,
        "try_lock"@ != "borrow"@,
        "try_lock"@ != "borrow_mut"@,
        "clone"@ != "borrow"@,
        "clone"@ != "borrow_mut"@,
        "clone"@ != "get_mut"@,
        "borrow"@ != "borrow_mut"@,
        "borrow"@ != "get_mut"@,
        "try_send"@ != "try_recv"@,
        "join"@ != "detach"@,
{
    reveal_strlit("lock");
    reveal_strlit("try_lock");
    reveal_strlit("borrow");
    reveal_strlit("borrow_mut");
    reveal_strlit("clone");
    reveal_strlit("get_mut");
    reveal_strlit("try_send");
    reveal_strlit("try_recv");
    reveal_strlit("join");
    reveal_strlit("detach");
    assert("lock"@.len() == 4);
    assert("try_lock"@.len() == 8);
    assert("borrow"@.len() == 6);
    assert("borrow_mut"@.len() == 10);
    assert("clone"@.len() == 5);
    assert("get_mut"@.len() == 7);
    assert("try_send"@[4] == 's');
    assert("try_recv"@[4] == 'r');
    assert("join"@.len() == 4);
    assert("detach"@.len() == 6);
}

/// `lock` takes the lock of the mutex that its receiver is or refers to, gives the
/// guard, and records that the guard holds that mutex.
pub proof fn locking_locks_the_named_mutex(
    state: LowerState,
    receiver: Expr,
    mutex: LocalId,
    elem_type: TypeView,
    referred: Option<Mutability>,
    span: Span,
    values: Map<LocalId, int>,
    outcomes: Map<LocalId, int>,
)
    requires
        state.has_room(1, 0),
        names_readable(
            state,
            receiver,
            mutex,
            match referred {
                Some(mutability) => TypeView::Ref(
                    Box::new(applied(MUTEX_TYPE_CONSTRUCTOR@, elem_type)),
                    mutability,
                ),
                None => applied(MUTEX_TYPE_CONSTRUCTOR@, elem_type),
            },
        ),
    ensures
        ({
            let (after, value) = state.mutex_method(receiver, "lock"@, Seq::empty(), span);
            let guard = state.local_ahead(0);
            &&& value == Some(Some(RvalueView::Move(guard)))
            &&& after.local_type(guard) == Some(applied(MUTEX_GUARD_TYPE_CONSTRUCTOR@, elem_type))
            &&& value_of(after.locks, guard.0) matches Some(loan) && loan.owner == mutex
            &&& state.executes(
                after,
                values,
                outcomes,
                seq![puts(guard, RvalueView::MutexLock { base: mutex, elem_type })],
            )
        }),
{
    reveal(LowerState::mutex_method);
    reveal(LowerState::registering_guard);
    method_names_differ();
    readable_values_pass(state, mutex, Some(receiver->Ident_1));
    let ty = applied(MUTEX_GUARD_TYPE_CONSTRUCTOR@, elem_type);
    let call = RvalueView::MutexLock { base: mutex, elem_type };
    one_value_takes_one_instruction(state, ty, call, values, outcomes);
    let guard = state.local_ahead(0);
    assigned_locals_keep_their_type(state, ty, call);
    let locked = state.with_typed_local(ty).assigned(guard, call);
    let (after, value) = state.mutex_method(receiver, "lock"@, Seq::empty(), span);
    assert(after == locked.registering_guard(guard, mutex, span));
    stored_values_are_found(
        locked.locks,
        guard.0,
        MutexLoan { owner: mutex, creation_scope: locked.depth_of(guard, 0), origin: span },
    );
    executions_ignore_bookkeeping(state, locked, after, values, outcomes, seq![puts(guard, call)]);
}

/// `try_lock` tries the lock of the mutex that its receiver is or refers to, once.
/// The result is `Some` of the guard exactly if the lock was acquired.
pub proof fn trying_to_lock_tries_the_named_mutex(
    state: LowerState,
    receiver: Expr,
    mutex: LocalId,
    elem_type: TypeView,
    referred: Option<Mutability>,
    span: Span,
    values: Map<LocalId, int>,
    outcomes: Map<LocalId, int>,
)
    requires
        state.has_room(3, 3),
        names_readable(
            state,
            receiver,
            mutex,
            match referred {
                Some(mutability) => TypeView::Ref(
                    Box::new(applied(MUTEX_TYPE_CONSTRUCTOR@, elem_type)),
                    mutability,
                ),
                None => applied(MUTEX_TYPE_CONSTRUCTOR@, elem_type),
            },
        ),
    ensures
        ({
            let (after, value) = state.mutex_method(receiver, "try_lock"@, Seq::empty(), span);
            let guard = state.local_ahead(0);
            let acquired = state.local_ahead(1);
            let result = state.local_ahead(2);
            &&& value == Some(Some(RvalueView::Move(result)))
            &&& value_of(after.locks, result.0) matches Some(loan) && loan.owner == mutex
            &&& state.executes(
                after,
                values,
                outcomes,
                seq![
                    puts(guard, RvalueView::MutexTryLock { base: mutex, elem_type }),
                    puts(acquired, RvalueView::MutexGuardIsAcquired { guard, elem_type }),
                    if outcomes[acquired] != 0 {
                        makes(result, "Option"@, 1, Some(MirValue::Local(guard)))
                    } else {
                        makes(result, "Option"@, 0, None)
                    },
                ],
            )
        }),
{
    reveal(LowerState::mutex_method);
    reveal(LowerState::registering_guard);
    method_names_differ();
    readable_values_pass(state, mutex, Some(receiver->Ident_1));
    a_tried_lock_gives_the_guard_exactly_if_acquired(
        state,
        mutex,
        elem_type,
        span,
        values,
        outcomes,
    );
    let (after, value) = state.trying_lock(mutex, elem_type, span);
    let result = state.local_ahead(2);
    assert(value_of(after.locks, result.0) matches Some(loan) && loan.owner == mutex) by {
        tried_locks_are_recorded(state, mutex, elem_type, span);
    }
    let given = if outcomes[state.local_ahead(1)] != 0 {
        makes(result, "Option"@, 1, Some(MirValue::Local(state.local_ahead(0))))
    } else {
        makes(result, "Option"@, 0, None)
    };
}

proof fn tried_locks_are_recorded(
    state: LowerState,
    owner: LocalId,
    elem_type: TypeView,
    span: Span,
)
    ensures
        ({
            let (after, value) = state.trying_lock(owner, elem_type, span);
            value matches RvalueView::Move(result) && (value_of(after.locks, result.0) matches Some(
                loan,
            ) && loan.owner == owner)
        }),
{
    reveal(LowerState::registering_guard);
    let (after, value) = state.trying_lock(owner, elem_type, span);
    assert forall|locks: Seq<(u32, MutexLoan)>, key: u32, loan: MutexLoan| #[trigger]
        value_of(with_entry(locks, key, loan), key) == Some(loan) by {
        stored_values_are_found(locks, key, loan);
    }
}

/// The access that a guard gives is to the value behind that guard, and is recorded
/// as borrowed from it.
pub proof fn guards_give_access_to_their_value(
    state: LowerState,
    receiver: Expr,
    guard: LocalId,
    elem_type: TypeView,
    exclusive: bool,
    span: Span,
    values: Map<LocalId, int>,
    outcomes: Map<LocalId, int>,
)
    requires
        state.has_room(1, 0),
        names_readable(state, receiver, guard, applied(MUTEX_GUARD_TYPE_CONSTRUCTOR@, elem_type)),
    ensures
        ({
            let method = if exclusive {
                "borrow_mut"@
            } else {
                "borrow"@
            };
            let (after, value) = state.mutex_method(receiver, method, Seq::empty(), span);
            let reference = state.local_ahead(0);
            &&& value == Some(Some(RvalueView::Move(reference)))
            &&& after.local_type(reference) == Some(
                TypeView::Ref(Box::new(elem_type), Mutability::Mutable),
            )
            &&& value_of(after.guard_borrows, reference.0) matches Some(borrow) && borrow.guard
                == guard
            &&& state.executes(
                after,
                values,
                outcomes,
                seq![puts(reference, RvalueView::MutexGuardBorrow { guard, elem_type })],
            )
        }),
{
    reveal(LowerState::mutex_method);
    reveal(LowerState::registering_guard_borrow);
    method_names_differ();
    readable_values_pass(state, guard, Some(receiver->Ident_1));
    let ty = TypeView::Ref(Box::new(elem_type), Mutability::Mutable);
    let call = RvalueView::MutexGuardBorrow { guard, elem_type };
    one_value_takes_one_instruction(state, ty, call, values, outcomes);
    assigned_locals_keep_their_type(state, ty, call);
    let reference = state.local_ahead(0);
    let lent = state.with_typed_local(ty).assigned(reference, call);
    let origin = receiver->Ident_1;
    let after = lent.registering_guard_borrow(reference, guard, origin);
    stored_values_are_found(
        lent.guard_borrows,
        reference.0,
        MutexGuardBorrow { guard, creation_scope: lent.depth_of(reference, 0), origin },
    );
    executions_ignore_bookkeeping(
        state,
        lent,
        after,
        values,
        outcomes,
        seq![puts(reference, call)],
    );
}

/// What a state knows beside the code does not change what the code does.
proof fn executions_ignore_bookkeeping(
    state: LowerState,
    emitted: LowerState,
    after: LowerState,
    values: Map<LocalId, int>,
    outcomes: Map<LocalId, int>,
    done: Seq<MirInstView>,
)
    requires
        state.executes(emitted, values, outcomes, done),
        after.blocks == emitted.blocks,
        after.current == emitted.current,
    ensures
        state.executes(after, values, outcomes, done),
{
    let steps = choose|steps: nat|
        arrives(
            #[trigger] state.upcoming(values).after(emitted.blocks, outcomes, steps),
            emitted,
            done,
        );
    assert(arrives(state.upcoming(values).after(after.blocks, outcomes, steps), after, done));
}

/// `Arc::clone` and `Arc::borrow` work on the `Arc` that the receiver names: a clone
/// is another owner, a borrow is a reference that is recorded as lent by it. There
/// is no exclusive access.
pub proof fn arcs_are_cloned_and_borrowed(
    state: LowerState,
    receiver: Expr,
    base: LocalId,
    elem_type: TypeView,
    span: Span,
    values: Map<LocalId, int>,
    outcomes: Map<LocalId, int>,
)
    requires
        state.has_room(1, 0),
        names_readable(state, receiver, base, applied(ARC_TYPE_CONSTRUCTOR@, elem_type)),
    ensures
        ({
            let local = state.local_ahead(0);
            let cloned = state.arc_method(receiver, "clone"@, Seq::empty(), span);
            let lent = state.arc_method(receiver, "borrow"@, Seq::empty(), span);
            &&& cloned.1 == Some(Some(RvalueView::Move(local)))
            &&& cloned.0.local_type(local) == Some(applied(ARC_TYPE_CONSTRUCTOR@, elem_type))
            &&& state.executes(
                cloned.0,
                values,
                outcomes,
                seq![puts(local, RvalueView::ArcClone { base, elem_type })],
            )
            &&& lent.1 == Some(Some(RvalueView::Move(local)))
            &&& lent.0.local_type(local) == Some(
                TypeView::Ref(Box::new(elem_type), Mutability::Immutable),
            )
            &&& value_of(lent.0.arc_loans, local.0) matches Some(loan) && loan.owner == base
            &&& state.executes(
                lent.0,
                values,
                outcomes,
                seq![puts(local, RvalueView::ArcBorrow { base, elem_type })],
            )
        }),
        forall|args: Seq<Expr>|
            {
                let (after, value) = #[trigger] state.arc_method(
                    receiver,
                    "borrow_mut"@,
                    args,
                    span,
                );
                &&& value == Some(None::<RvalueView>)
                &&& after.blocks == state.blocks
                &&& after.diagnostics.len() == state.diagnostics.len() + 1
            },
        forall|args: Seq<Expr>|
            {
                let (after, value) = #[trigger] state.arc_method(receiver, "get_mut"@, args, span);
                &&& value == Some(None::<RvalueView>)
                &&& after.blocks == state.blocks
                &&& after.diagnostics.len() == state.diagnostics.len() + 1
            },
{
    reveal(LowerState::arc_method);
    reveal(LowerState::registering_arc_borrow);
    method_names_differ();
    readable_values_pass(state, base, Some(receiver->Ident_1));
    let local = state.local_ahead(0);
    let arc_type = applied(ARC_TYPE_CONSTRUCTOR@, elem_type);
    let clone = RvalueView::ArcClone { base, elem_type };
    one_value_takes_one_instruction(state, arc_type, clone, values, outcomes);
    assigned_locals_keep_their_type(state, arc_type, clone);
    let reference_type = TypeView::Ref(Box::new(elem_type), Mutability::Immutable);
    let borrow = RvalueView::ArcBorrow { base, elem_type };
    one_value_takes_one_instruction(state, reference_type, borrow, values, outcomes);
    assigned_locals_keep_their_type(state, reference_type, borrow);
    let made = state.with_typed_local(reference_type).assigned(local, borrow);
    let lent = made.registering_loan(local, base, BorrowKind::Shared, span);
    let after = made.registering_arc_borrow(local, base, span);
    stored_values_are_found(
        lent.arc_loans,
        local.0,
        ArcLoan { owner: base, creation_scope: lent.depth_of(local, 0), origin: span },
    );
    executions_ignore_bookkeeping(state, made, after, values, outcomes, seq![puts(local, borrow)]);
}

proof fn assigned_locals_keep_their_type(state: LowerState, ty: TypeView, value: RvalueView)
    requires
        state.has_room(1, 0),
        !(value is VecIndex) && !(value is MapGet) && !(value is FieldAccess)
            && !(value is EnumPayload) && !(value is Move),
    ensures
        state.with_typed_local(ty).assigned(state.local_ahead(0), value).local_type(
            state.local_ahead(0),
        ) == Some(ty),
{
    typed_locals_take_the_next_number(state, ty);
    quiet_values_keep_the_locals(state.with_typed_local(ty), state.local_ahead(0), value);
}

/// `Arc::new` and `Mutex::new` move the value that they are given into one new cell
/// of its type. A reference is refused: there is a report and no cell.
pub proof fn cells_own_what_they_are_given(
    state: LowerState,
    operand: MirValue,
    ty: TypeView,
    span: Span,
    values: Map<LocalId, int>,
    outcomes: Map<LocalId, int>,
)
    requires
        state.has_room(1, 0),
    ensures
        ({
            let lowered = LoweredView { value: operand, ty: Some(ty) };
            let local = state.local_ahead(0);
            let arc = state.finishing_arc_new(Some(lowered), span);
            let mutex = state.finishing_mutex_new(Some(lowered), span);
            if ty is Ref {
                &&& arc.0.blocks == state.blocks && mutex.0.blocks == state.blocks
                &&& arc.0.diagnostics.len() == state.diagnostics.len() + 1
                &&& mutex.0.diagnostics.len() == state.diagnostics.len() + 1
            } else {
                &&& arc.1 == Some(RvalueView::Move(local))
                &&& arc.0.local_type(local) == Some(applied(ARC_TYPE_CONSTRUCTOR@, ty))
                &&& state.executes(
                    arc.0,
                    values,
                    outcomes,
                    seq![puts(local, RvalueView::ArcNew { value: operand, elem_type: ty })],
                )
                &&& mutex.1 == Some(RvalueView::Move(local))
                &&& mutex.0.local_type(local) == Some(applied(MUTEX_TYPE_CONSTRUCTOR@, ty))
                &&& state.executes(
                    mutex.0,
                    values,
                    outcomes,
                    seq![puts(local, RvalueView::MutexNew { value: operand, elem_type: ty })],
                )
            }
        }),
{
    let arc_type = applied(ARC_TYPE_CONSTRUCTOR@, ty);
    let arc = RvalueView::ArcNew { value: operand, elem_type: ty };
    one_value_takes_one_instruction(state, arc_type, arc, values, outcomes);
    assigned_locals_keep_their_type(state, arc_type, arc);
    let mutex_type = applied(MUTEX_TYPE_CONSTRUCTOR@, ty);
    let mutex = RvalueView::MutexNew { value: operand, elem_type: ty };
    one_value_takes_one_instruction(state, mutex_type, mutex, values, outcomes);
    assigned_locals_keep_their_type(state, mutex_type, mutex);
}

/// A channel is made by one runtime call, and its endpoints form a pair in which
/// the sender stands first.
pub proof fn channels_pair_their_endpoints(
    state: LowerState,
    capacity: MirValue,
    item: TypeView,
    pair_name: Seq<char>,
    values: Map<LocalId, int>,
    outcomes: Map<LocalId, int>,
)
    requires
        state.has_room(3, 0),
    ensures
        ({
            let (after, value) = state.making_pair(capacity, item, pair_name);
            let receiver = state.local_ahead(0);
            let sender = state.local_ahead(1);
            let pair = state.local_ahead(2);
            &&& value == Some(RvalueView::Move(pair))
            &&& after.local_type(pair) == Some(
                TypeView::Tuple(
                    seq![
                        applied(SPSC_SENDER_TYPE_CONSTRUCTOR@, item),
                        applied(SPSC_RECEIVER_TYPE_CONSTRUCTOR@, item),
                    ],
                ),
            )
            &&& state.executes(
                after,
                values,
                outcomes,
                seq![
                    puts(
                        sender,
                        RvalueView::SpscChannelNew {
                            capacity,
                            out_receiver: receiver,
                            elem_type: item,
                        },
                    ),
                    puts(
                        pair,
                        RvalueView::StructLit {
                            struct_name: pair_name,
                            field_values: seq![
                                ("0"@, MirValue::Local(sender)),
                                ("1"@, MirValue::Local(receiver)),
                            ],
                        },
                    ),
                ],
            )
        }),
{
    let c = state.current.0 as int;
    let sender_type = applied(SPSC_SENDER_TYPE_CONSTRUCTOR@, item);
    let receiver_type = applied(SPSC_RECEIVER_TYPE_CONSTRUCTOR@, item);
    let receiver = LocalId(state.next_local);
    typed_locals_take_the_next_number(state, receiver_type);
    let s1 = state.with_typed_local(receiver_type);
    let sender = LocalId(s1.next_local);
    typed_locals_take_the_next_number(s1, sender_type);
    let s2 = s1.with_typed_local(sender_type);
    let make = RvalueView::SpscChannelNew { capacity, out_receiver: receiver, elem_type: item };
    values_are_put_once(s2, sender, make);
    let made = s2.assigned(sender, make).with_state(receiver, LocalState::Initialized);
    let pair = LocalId(made.next_local);
    let pair_type = TypeView::Tuple(seq![sender_type, receiver_type]);
    let join = RvalueView::StructLit {
        struct_name: pair_name,
        field_values: seq![
            ("0"@, MirValue::Local(sender)),
            ("1"@, MirValue::Local(receiver)),
        ],
    };
    typed_locals_take_the_next_number(made, pair_type);
    let s3 = made.with_typed_local(pair_type);
    values_are_put_once(s3, pair, join);
    quiet_values_keep_the_locals(s3, pair, join);
    let after = s3.assigned(pair, join);
    assert(state.making_pair(capacity, item, pair_name) == (after, Some(RvalueView::Move(pair))));
    let code = after.blocks;
    let before = state.blocks[c];
    assert(code[c] =~= before.push(puts(sender, make)).push(puts(pair, join)));
    assert(state.keeps_code(after)) by {
        assert(before =~= code[c].subrange(0, before.len() as int));
    }
    let at = before.len() as int;
    let r0 = state.upcoming(values);
    let r1 = r0.step(code, outcomes);
    assert(code[c][at] == puts(sender, make));
    let r2 = r1.step(code, outcomes);
    assert(code[c][at + 1] == puts(pair, join));
    assert(r0.after(code, outcomes, 2) == r2) by {
        reveal_with_fuel(Run::after, 3);
    }
    assert(r2.done =~= seq![puts(sender, make), puts(pair, join)]);
    assert(arrives(
        r0.after(code, outcomes, 2),
        after,
        seq![puts(sender, make), puts(pair, join)],
    ));
}

/// A channel whose receiver goes to a given local puts it exactly there, and gives
/// the sender.
pub proof fn channels_fill_the_given_receiver(
    state: LowerState,
    receiver: LocalId,
    capacity: MirValue,
    item: TypeView,
    values: Map<LocalId, int>,
    outcomes: Map<LocalId, int>,
)
    requires
        state.has_room(1, 0),
        state.has_local(receiver),
    ensures
        ({
            let (after, value) = state.making_sender(receiver, capacity, item);
            let sender = state.local_ahead(0);
            &&& value == Some(RvalueView::Move(sender))
            &&& after.local_type(sender) == Some(applied(SPSC_SENDER_TYPE_CONSTRUCTOR@, item))
            &&& after.state_of(receiver) == Some(LocalState::Initialized)
            &&& state.executes(
                after,
                values,
                outcomes,
                seq![
                    puts(
                        sender,
                        RvalueView::SpscChannelNew {
                            capacity,
                            out_receiver: receiver,
                            elem_type: item,
                        },
                    ),
                ],
            )
        }),
{
    let ty = applied(SPSC_SENDER_TYPE_CONSTRUCTOR@, item);
    let make = RvalueView::SpscChannelNew { capacity, out_receiver: receiver, elem_type: item };
    one_value_takes_one_instruction(state, ty, make, values, outcomes);
    assigned_locals_keep_their_type(state, ty, make);
    let sender = state.local_ahead(0);
    let made = state.with_typed_local(ty).assigned(sender, make);
    executions_ignore_bookkeeping(
        state,
        made,
        made.with_state(receiver, LocalState::Initialized),
        values,
        outcomes,
        seq![puts(sender, make)],
    );
}

/// Only a sender sends and only a receiver receives, each on the channel of the
/// endpoint that its receiver names; no endpoint is ever cloned.
pub proof fn endpoints_work_one_way(
    state: LowerState,
    receiver: Expr,
    endpoint: LocalId,
    item: TypeView,
    sends: bool,
    argument: Expr,
    span: Span,
)
    requires
        names_readable(
            state,
            receiver,
            endpoint,
            if sends {
                applied(SPSC_SENDER_TYPE_CONSTRUCTOR@, item)
            } else {
                applied(SPSC_RECEIVER_TYPE_CONSTRUCTOR@, item)
            },
        ),
    ensures
        ({
            let sent = state.endpoint_method(receiver, "try_send"@, seq![argument], span);
            let received = state.endpoint_method(receiver, "try_recv"@, Seq::empty(), span);
            let cloned = state.endpoint_method(receiver, "clone"@, Seq::empty(), span);
            let refused = |outcome: (LowerState, Option<EndpointStepView>)|
                {
                    &&& outcome.1 == Some(EndpointStepView::Done(None))
                    &&& outcome.0.blocks == state.blocks
                    &&& outcome.0.diagnostics.len() == state.diagnostics.len() + 1
                };
            &&& refused(cloned)
            &&& if sends {
                &&& sent == (
                    state,
                    Some(EndpointStepView::WantsItem { sender: endpoint, item }),
                )
                &&& refused(received)
            } else {
                &&& refused(sent)
                &&& received.0 == state.receiving(endpoint, item).0
                &&& received.1 == Some(
                    EndpointStepView::Done(Some(state.receiving(endpoint, item).1)),
                )
            }
        }),
{
    reveal(LowerState::endpoint_method);
    endpoint_names_differ();
    readable_values_pass(state, endpoint, Some(receiver->Ident_1));
    canonical_constructors_are_distinct();
}

proof fn endpoint_names_differ()
    ensures
        "try_send"@ != "try_recv"@,
        "try_send"@ != "clone"@,
        "try_recv"@ != "clone"@,
{
    reveal_strlit("try_send");
    reveal_strlit("try_recv");
    reveal_strlit("clone");
    assert("try_send"@[4] == 's');
    assert("try_recv"@[4] == 'r');
    assert("clone"@.len() == 5);
    assert("try_send"@.len() == 8);
    assert("try_recv"@.len() == 8);
}

/// A task starts exactly if the verdict on it lets it cross. It is then handed to
/// one runtime call, and a status of zero gives the handle of its thread; any other
/// status is an error. A task that may not cross is reported and starts nothing.
pub proof fn spawning_starts_what_may_cross(
    state: LowerState,
    task: LocalId,
    result: TypeView,
    span: Span,
    values: Map<LocalId, int>,
    outcomes: Map<LocalId, int>,
)
    requires
        state.has_room(6, 3),
        state.state_of(task) == Some(LocalState::Moved) || state.is_consumable(task),
    ensures
        ({
            let task_type = TypeView::Function { params: Seq::empty(), ret: Box::new(result) };
            let handed = if gives_nothing(result) {
                TypeView::Void
            } else {
                result
            };
            let verdict = state.task_verdict(task, task_type, handed);
            let lowered = LoweredView { value: MirValue::Local(task), ty: Some(task_type) };
            let (after, value) = state.finishing_spawn(Some(lowered), span);
            let raw = state.local_ahead(0);
            let status = state.local_ahead(1);
            let handle = state.local_ahead(2);
            if verdict is Err {
                &&& after.blocks == state.blocks
                &&& after.diagnostics.len() == state.diagnostics.len() + 1
            } else {
                &&& value == Some(RvalueView::Move(state.local_ahead(4)))
                &&& state.executes(
                    after,
                    values,
                    outcomes,
                    seq![
                        puts(
                            status,
                            if gives_nothing(result) {
                                RvalueView::ThreadSpawnUnit { task, out_handle: raw }
                            } else {
                                RvalueView::ThreadSpawnResult {
                                    task,
                                    out_handle: raw,
                                    result_type: result,
                                }
                            },
                        ),
                        puts(handle, RvalueView::ThreadHandleFromRaw { raw }),
                        is_number(state.local_ahead(3), status, 0),
                    ] + made_from_status(
                        outcomes[status],
                        status,
                        Some(MirValue::Local(handle)),
                        state.local_ahead(4),
                        state.local_ahead(5),
                    ),
                )
            }
        }),
{
    let handed = if gives_nothing(result) {
        TypeView::Void
    } else {
        result
    };
    assert(is_unit(result) == gives_nothing(result)) by {
        match result {
            TypeView::Tuple(elements) => {
                if elements.len() == 0 {
                    assert(elements =~= Seq::empty());
                }
            },
            _ => {},
        }
    }
    let typed = state.after_typing(handed);
    assert(typed.is_consumable(task) == state.is_consumable(task)) by {
        reveal(LowerState::is_consumable);
        reveal(LowerState::is_available);
    }
    taking_over_emits_nothing(typed, task, Some(span));
    let owned = if typed.state_of(task) == Some(LocalState::Moved) {
        typed
    } else {
        typed.consuming(task, Some(span))
    };
    threads_start_once(owned, task, handed, values, outcomes);
    let task_type = TypeView::Function { params: Seq::empty(), ret: Box::new(result) };
    let lowered = LoweredView { value: MirValue::Local(task), ty: Some(task_type) };
    let (after, value) = state.finishing_spawn(Some(lowered), span);
    assert(task_type.callable_signature() == Some((Seq::<TypeView>::empty(), result)));
    assert((after, value) == state.spawning_task(MirValue::Local(task), task_type, handed, span));
    let verdict = state.task_verdict(task, task_type, handed);
    if verdict is Ok {
        assert((after, value) == owned.spawning(task, handed));
        assert(state.upcoming(values) == owned.upcoming(values));
    }
}

/// A task may cross exactly if it and what it gives may be moved to another thread.
pub proof fn tasks_cross_with_their_result(
    reg: RegistryView,
    task: ThreadSafetyTypeView,
    result: ThreadSafetyTypeView,
)
    ensures
        spawn_verdict(reg, task, result) is Ok <==> is_safe(
            reg,
            task,
            ThreadSafetyRequirement::Send,
        ) && is_safe(reg, result, ThreadSafetyRequirement::Send),
{
    checks_decide_safety(reg, task, ThreadSafetyRequirement::Send, "spawn task"@);
    checks_decide_safety(reg, result, ThreadSafetyRequirement::Send, "spawn result"@);
}

/// `join` and `detach` are told apart by their names.
pub proof fn methods_of_handles_go_by_name(
    state: LowerState,
    receiver: Expr,
    result_type: TypeView,
    span: Span,
)
    requires
        state.inferred(receiver) == Some(applied(THREAD_HANDLE_TYPE@, result_type)),
    ensures
        state.method_call(receiver, "join"@, Seq::empty(), span) == (
            state,
            MethodStepView::ThreadHandle {
                handle_type: applied(THREAD_HANDLE_TYPE@, result_type),
                detach: false,
            },
        ),
        state.method_call(receiver, "detach"@, Seq::empty(), span) == (
            state,
            MethodStepView::ThreadHandle {
                handle_type: applied(THREAD_HANDLE_TYPE@, result_type),
                detach: true,
            },
        ),
{
    method_names_differ();
}

/// A constant that is put into a local stays what it is.
pub proof fn constants_are_kept(
    state: LowerState,
    operand: MirValue,
    ty: TypeView,
    values: Map<LocalId, int>,
    outcomes: Map<LocalId, int>,
)
    requires
        state.has_room(1, 0),
    ensures
        operand matches MirValue::Local(local) ==> state.localized(operand) == local
            && state.localizing(operand, ty) == state,
        !(operand is Local) ==> {
            let local = state.local_ahead(0);
            &&& state.localized(operand) == local
            &&& state.executes(
                state.localizing(operand, ty),
                values,
                outcomes,
                seq![
                    puts(
                        local,
                        match operand {
                            MirValue::Int(number) => RvalueView::ConstInt(number),
                            MirValue::Float(bits) => RvalueView::ConstFloat(bits),
                            MirValue::Bool(flag) => RvalueView::ConstBool(flag),
                            _ => RvalueView::ConstInt(0),
                        },
                    ),
                ],
            )
        },
{
    one_value_takes_one_instruction(state, ty, constant(operand), values, outcomes);
}

/// Each atomic method is the operation of its name on the cell that it is called
/// on, with its arguments in order and sequentially consistent ordering.
pub proof fn atomic_methods_do_what_they_are_named_for(
    atomic: LocalId,
    scalar: AtomicScalar,
    first: MirValue,
    second: MirValue,
)
    ensures
        ({
            let ordering = AtomicOrdering::SeqCst;
            let none = Seq::<MirValue>::empty();
            let load = AtomicMethod::named("load"@)->0;
            let store = AtomicMethod::named("store"@)->0;
            let swap = AtomicMethod::named("swap"@)->0;
            let plus = AtomicMethod::named("fetch_add"@)->0;
            let minus = AtomicMethod::named("fetch_sub"@)->0;
            let exchange = AtomicMethod::named("compare_exchange"@)->0;
            let lock_free = AtomicMethod::named("is_lock_free"@)->0;
            let rmw = |op: AtomicRmwOp|
                RvalueView::AtomicRmw { atomic, value: first, scalar, op, ordering };
            &&& load.operation(atomic, scalar, none) == (RvalueView::AtomicLoad {
                atomic,
                scalar,
                ordering,
            })
            &&& store.operation(atomic, scalar, seq![first]) == (RvalueView::AtomicStore {
                atomic,
                value: first,
                scalar,
                ordering,
            })
            &&& swap.operation(atomic, scalar, seq![first]) == rmw(AtomicRmwOp::Swap)
            &&& plus.operation(atomic, scalar, seq![first]) == rmw(AtomicRmwOp::Add)
            &&& minus.operation(atomic, scalar, seq![first]) == rmw(AtomicRmwOp::Sub)
            &&& exchange.operation(atomic, scalar, seq![first, second]) == (
            RvalueView::AtomicCompareExchange {
                atomic,
                expected: first,
                desired: second,
                scalar,
                success: ordering,
                failure: ordering,
            })
            &&& lock_free.operation(atomic, scalar, none) == (RvalueView::AtomicIsLockFree {
                scalar,
            })
            &&& load.value_count() == 0 && lock_free.value_count() == 0
            &&& store.value_count() == 1 && swap.value_count() == 1
            &&& plus.value_count() == 1 && minus.value_count() == 1
            &&& exchange.value_count() == 2
            &&& store.result_type(scalar) == TypeView::Void
            &&& lock_free.result_type(scalar) == TypeView::Bool
            &&& load.result_type(scalar) == scalar_value(scalar)
            &&& swap.result_type(scalar) == scalar_value(scalar)
            &&& plus.result_type(scalar) == scalar_value(scalar)
            &&& minus.result_type(scalar) == scalar_value(scalar)
            &&& exchange.result_type(scalar) == scalar_value(scalar)
        }),
        scalar_value(AtomicScalar::Bool) == TypeView::Bool,
        scalar_value(AtomicScalar::I32) == TypeView::I32,
        scalar_value(AtomicScalar::U32) == TypeView::U32,
        scalar_value(AtomicScalar::I64) == TypeView::I64,
        scalar_value(AtomicScalar::U64) == TypeView::U64,
        scalar_value(AtomicScalar::Usize) == TypeView::Usize,
{
    reveal_strlit("load");
    reveal_strlit("store");
    reveal_strlit("swap");
    reveal_strlit("fetch_add");
    reveal_strlit("fetch_sub");
    reveal_strlit("compare_exchange");
    reveal_strlit("is_lock_free");
    assert("load"@[0] == 'l');
    assert("swap"@[0] == 's');
    assert("load"@.len() == 4);
    assert("store"@.len() == 5);
    assert("swap"@.len() == 4);
    assert("fetch_add"@.len() == 9);
    assert("fetch_sub"@.len() == 9);
    assert("fetch_add"@[6] == 'a');
    assert("fetch_sub"@[6] == 's');
    assert("compare_exchange"@.len() == 16);
    assert("is_lock_free"@.len() == 12);
}

/// An atomic operation is one instruction, whose result is in a fresh local of the
/// operation's type.
pub proof fn atomic_operations_take_one_instruction(
    state: LowerState,
    ty: TypeView,
    operation: RvalueView,
    values: Map<LocalId, int>,
    outcomes: Map<LocalId, int>,
)
    requires
        state.has_room(1, 0),
        operation is AtomicLoad || operation is AtomicStore || operation is AtomicRmw
            || operation is AtomicCompareExchange || operation is AtomicIsLockFree,
    ensures
        ({
            let (after, value) = state.resulting(ty, operation);
            let local = state.local_ahead(0);
            &&& value == RvalueView::Move(local)
            &&& after.local_type(local) == Some(ty)
            &&& state.executes(after, values, outcomes, seq![puts(local, operation)])
        }),
{
    one_value_takes_one_instruction(state, ty, operation, values, outcomes);
    assigned_locals_keep_their_type(state, ty, operation);
}

} // verus!
