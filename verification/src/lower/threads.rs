//! Owned threads: `spawn`, `join` and `detach`.

use vstd::prelude::*;

use crate::ast::Expr;
use crate::diag::Span;
use crate::lower::arc::method_result_view;
use crate::lower::context::LowerCtx;
use crate::lower::kinds::{spelled, type_label};
use crate::lower::spsc::{is_unit, is_unit_type};
use crate::lower::state::{LocalState, LowerState};
use crate::lower::values::{
    lowered_option_view, placeholder, rvalue_option_view, LoweredValue, LoweredView, Step, StepView,
};
use crate::mir::{LocalId, MirInst, MirInstView, MirValue, Rvalue, RvalueView};
use crate::text::{concat3, same_text};
use crate::thread::{
    canonical_thread_error_type, canonical_thread_handle_result, canonical_thread_handle_type,
    join_result_type, spawn_result_type, thread_result_view, unit_thread_status_result_type,
    THREAD_ERROR_TYPE, THREAD_HANDLE_TYPE,
};
use crate::thread_safety::{
    spawn_verdict, CallableSendProvenance, SendProvenanceView, ThreadSafetyType,
    ThreadSafetyTypeView, Verdict,
};
use crate::types::{canonical_application, canonical_argument, type_option_view, Type, TypeView};

verus! {

broadcast use vstd::std_specs::hash::group_hash_axioms;

/// The reason recorded for a callable that nothing is known of.
pub const NO_CERTIFICATE: &'static str = "callable reached spawn without a compiler provenance certificate";

/// The private handle of a thread.
pub open spec fn raw_handle_view() -> TypeView {
    TypeView::RawPtr(Box::new(TypeView::I8))
}

/// The result of a task: the two spellings of unit are one.
pub open spec fn task_result(ty: TypeView) -> TypeView {
    if is_unit(ty) {
        TypeView::Void
    } else {
        ty
    }
}

impl LowerState {
    /// Whether a name denotes the compiler-owned `spawn`.
    pub open spec fn is_spawn(self, name: Seq<char>) -> bool {
        self.resolver.names_function(name, "std/thread"@, "spawn"@)
    }

    /// A `Result` from a status: zero is a success.
    #[verifier::opaque]
    pub open spec fn status_result(
        self,
        status: LocalId,
        payload: Option<MirValue>,
        result_type: TypeView,
    ) -> (LowerState, RvalueView) {
        let is_ok = LocalId(self.next_local);
        let asked = self.comparing(status, 0);
        let ok_block = asked.next_block();
        let error_block = asked.with_new_block().next_block();
        let join = asked.with_new_block().with_new_block().next_block();
        let open = asked.with_new_block().with_new_block().with_new_block();
        let result = LocalId(open.next_local);
        let split = open.with_typed_local(result_type).branching(is_ok, ok_block, error_block);
        let succeeded = split.at_block(ok_block).yielding(result, "Result"@, 0, payload, join);
        let failed = succeeded.with_state(result, LocalState::Uninitialized).at_block(error_block);
        let error = LocalId(failed.next_local);
        let reported = failed.with_typed_local(TypeView::Named(THREAD_ERROR_TYPE@)).assigned(
            error,
            RvalueView::ThreadErrorFromStatus { status: MirValue::Local(status) },
        ).yielding(result, "Result"@, 1, Some(MirValue::Local(error)), join);
        (
            reported.with_state(result, LocalState::Initialized).at_block(join),
            RvalueView::Move(result),
        )
    }

    /// What is known of where a task came from.
    pub open spec fn task_provenance(self, task: LocalId) -> SendProvenanceView {
        if self.provenance.contains_key(task.0) {
            self.provenance[task.0]
        } else {
            SendProvenanceView::Unknown { reason: NO_CERTIFICATE@ }
        }
    }

    /// Whether a task and its result may cross a thread boundary.
    pub open spec fn task_verdict(self, task: LocalId, task_type: TypeView, result: TypeView) -> Verdict {
        spawn_verdict(
            self.after_typing(result).safety.registry,
            ThreadSafetyTypeView::Callable {
                signature: task_type,
                provenance: self.task_provenance(task),
            },
            self.safety.safety_type(result),
        )
    }

    /// The start of a thread that runs a task which may cross the boundary.
    #[verifier::opaque]
    pub open spec fn spawning(self, task: LocalId, result: TypeView) -> (
        LowerState,
        Option<RvalueView>,
    ) {
        let raw = LocalId(self.next_local);
        let ready = self.with_thread_handle_local(raw_handle_view()).with_state(
            raw,
            LocalState::Initialized,
        );
        let status = LocalId(ready.next_local);
        let started = ready.with_typed_local(TypeView::I32).assigned(
            status,
            if result is Void {
                RvalueView::ThreadSpawnUnit { task, out_handle: raw }
            } else {
                RvalueView::ThreadSpawnResult { task, out_handle: raw, result_type: result }
            },
        );
        let handle_type = canonical_application(THREAD_HANDLE_TYPE@, result);
        let handle = LocalId(started.next_local);
        let (after, value) = started.with_typed_local(handle_type).assigned(
            handle,
            RvalueView::ThreadHandleFromRaw { raw },
        ).status_result(status, Some(MirValue::Local(handle)), thread_result_view(handle_type));
        (after, Some(value))
    }

    /// `spawn` of a task whose type shows that it takes nothing and gives
    /// `result`.
    pub open spec fn spawning_task(
        self,
        value: MirValue,
        task_type: TypeView,
        result: TypeView,
        span: Span,
    ) -> (LowerState, Option<RvalueView>) {
        let task = self.localized(value);
        let ready = self.localizing(value, task_type);
        let typed = ready.after_typing(result);
        match ready.task_verdict(task, task_type, result) {
            Err(error) => (typed.error(error.text(), Some(span)), placeholder()),
            Ok(_) => if typed.state_of(task) == Some(LocalState::Moved) {
                typed.spawning(task, result)
            } else if typed.is_consumable(task) {
                typed.consuming(task, Some(span)).spawning(task, result)
            } else {
                (typed.consuming(task, Some(span)), placeholder())
            },
        }
    }

    /// What `spawn` asks for first.
    pub open spec fn beginning_spawn(self, args: Seq<Expr>, span: Span) -> (LowerState, StepView) {
        if args.len() != 1 {
            (
                self.error("std::thread::spawn expects one FnOnce() -> T task"@, Some(span)),
                StepView::Done(placeholder()),
            )
        } else {
            (self, StepView::Wants { index: 0, expected: None })
        }
    }

    /// `spawn` of a lowered value.
    pub open spec fn finishing_spawn(self, value: Option<LoweredView>, span: Span) -> (
        LowerState,
        Option<RvalueView>,
    ) {
        match value {
            None => (self, None),
            Some(LoweredView { ty: None, .. }) => (
                self.error("std::thread::spawn task type is unknown"@, Some(span)),
                placeholder(),
            ),
            Some(LoweredView { value, ty: Some(task_type) }) => match task_type.callable_signature() {
                None => (
                    self.error(
                        "std::thread::spawn expects FnOnce() -> T, found '"@ + spelled(task_type)
                            + "'"@,
                        Some(span),
                    ),
                    placeholder(),
                ),
                Some((params, result)) => if params.len() != 0 {
                    (
                        self.error(
                            "std::thread::spawn task must take no arguments, found '"@ + spelled(
                                task_type,
                            ) + "'"@,
                            Some(span),
                        ),
                        placeholder(),
                    )
                } else {
                    self.spawning_task(value, task_type, task_result(result), span)
                },
            },
        }
    }

    /// The handle type behind the receiver of `join` and `detach`.
    pub open spec fn thread_receiver(self, receiver: Expr, method: Seq<char>, args: Seq<Expr>) -> Option<
        TypeView,
    > {
        if (method == "join"@ || method == "detach"@) && args.len() == 0 {
            match self.inferred(receiver) {
                Some(ty) => if canonical_argument(ty, THREAD_HANDLE_TYPE@) is Some {
                    Some(ty)
                } else {
                    None
                },
                None => None,
            }
        } else {
            None
        }
    }

    /// The raw handle is used up.
    pub open spec fn finishing_handle(self, raw: LocalId) -> LowerState {
        self.pushed(MirInstView::DropThreadHandle(raw)).with_state(raw, LocalState::Moved)
    }

    /// The end of a thread's handle.
    #[verifier::opaque]
    pub open spec fn joining(self, handle: LocalId, detach: bool, result_type: TypeView) -> (
        LowerState,
        RvalueView,
    ) {
        let raw = LocalId(self.next_local);
        let taken = self.with_thread_handle_local(raw_handle_view()).assigned(
            raw,
            RvalueView::ThreadHandleIntoRaw { handle },
        );
        let status = LocalId(taken.next_local);
        let ready = taken.with_typed_local(TypeView::I32);
        if detach {
            ready.assigned(status, RvalueView::ThreadDetachUnit { handle: raw }).finishing_handle(
                raw,
            ).status_result(status, Some(MirValue::Unit), thread_result_view(TypeView::Void))
        } else if is_unit(result_type) {
            ready.assigned(status, RvalueView::ThreadJoinUnit { handle: raw }).finishing_handle(
                raw,
            ).status_result(status, Some(MirValue::Unit), thread_result_view(TypeView::Void))
        } else {
            let result = LocalId(ready.next_local);
            ready.with_typed_local(result_type).with_state(
                result,
                LocalState::Uninitialized,
            ).assigned(
                status,
                RvalueView::ThreadJoinResult { handle: raw, out_result: result, result_type },
            ).finishing_handle(raw).status_result(
                status,
                Some(MirValue::Local(result)),
                thread_result_view(result_type),
            )
        }
    }

    /// `join` or `detach` of a lowered handle.
    pub open spec fn finishing_thread_method(
        self,
        handle_type: TypeView,
        detach: bool,
        value: Option<LoweredView>,
        span: Span,
    ) -> (LowerState, Option<Option<RvalueView>>) {
        match (value, canonical_argument(handle_type, THREAD_HANDLE_TYPE@)) {
            (Some(lowered), Some(result_type)) => {
                let handle = self.localized(lowered.value);
                let ready = self.localizing(lowered.value, handle_type);
                if ready.state_of(handle) != Some(LocalState::Moved) && !ready.is_consumable(handle) {
                    (ready.consuming(handle, Some(span)), Some(placeholder()))
                } else {
                    let owned = if ready.state_of(handle) == Some(LocalState::Moved) {
                        ready
                    } else {
                        ready.consuming(handle, Some(span))
                    };
                    let (after, result) = owned.joining(handle, detach, result_type);
                    (after, Some(Some(result)))
                }
            },
            _ => (self, None),
        }
    }
}

impl<'a> LowerCtx<'a> {
    pub fn is_canonical_spawn(&self, name: &str) -> (canonical: bool)
        ensures
            canonical == self@.is_spawn(name@),
    {
        self.resolver.is_function_symbol(name, "std/thread", "spawn")
    }

    /// A `Result` from a status.
    pub fn emit_status_result(
        &mut self,
        status: LocalId,
        success_payload: Option<MirValue>,
        result_type: Type,
    ) -> (value: Rvalue)
        ensures
            (final(self)@, value@) == old(self)@.status_result(
                status,
                success_payload,
                result_type@,
            ),
    {
        proof {
            reveal(LowerState::status_result);
        }
        let is_ok = self.compare_status(status, 0);
        let ok_block = self.new_block();
        let error_block = self.new_block();
        let join = self.new_block();
        let result = self.typed_local(result_type);
        self.branch(is_ok, ok_block, error_block);
        self.switch_to(ok_block);
        self.yield_variant(result, "Result", 0, success_payload, join);
        self.set_state(result, LocalState::Uninitialized);
        self.switch_to(error_block);
        let error = self.typed_local(canonical_thread_error_type());
        self.assign(
            error,
            Rvalue::ThreadErrorFromStatus { status: MirValue::Local(status) },
        );
        self.yield_variant(result, "Result", 1, Some(MirValue::Local(error)), join);
        self.set_state(result, LocalState::Initialized);
        self.switch_to(join);
        Rvalue::Move(result)
    }

    /// Starts `spawn`.
    pub fn begin_thread_spawn(&mut self, args: &Vec<Expr>, span: Span) -> (step: Step)
        ensures
            (final(self)@, step@) == old(self)@.beginning_spawn(args@, span),
    {
        if args.len() != 1 {
            self.error("std::thread::spawn expects one FnOnce() -> T task", Some(span));
            return Step::Done(Some(Rvalue::ConstInt(0)));
        }
        Step::Wants { index: 0, expected: None }
    }

    fn task_provenance(&self, task: LocalId) -> (provenance: CallableSendProvenance)
        ensures
            provenance@ == self@.task_provenance(task),
    {
        match self.callable_provenance.get(&task.0) {
            Some(provenance) => provenance.clone(),
            None => CallableSendProvenance::Unknown { reason: NO_CERTIFICATE.to_owned() },
        }
    }

    fn start_thread(&mut self, task: LocalId, result: Type) -> (value: Option<Rvalue>)
        ensures
            (final(self)@, rvalue_option_view(value)) == old(self)@.spawning(task, result@),
    {
        proof {
            reveal(LowerState::spawning);
        }
        let raw = self.fresh_thread_handle_local();
        self.set_state(raw, LocalState::Initialized);
        let status = self.typed_local(Type::I32);
        let is_void = match &result {
            Type::Void => true,
            _ => false,
        };
        let start = if is_void {
            Rvalue::ThreadSpawnUnit { task, out_handle: raw }
        } else {
            Rvalue::ThreadSpawnResult { task, out_handle: raw, result_type: result.clone() }
        };
        self.assign(status, start);
        let handle = self.typed_local(canonical_thread_handle_type(result.clone()));
        self.assign(handle, Rvalue::ThreadHandleFromRaw { raw });
        Some(
            self.emit_status_result(
                status,
                Some(MirValue::Local(handle)),
                spawn_result_type(result),
            ),
        )
    }

    fn spawn_task(&mut self, value: MirValue, task_type: Type, result: Type, span: Span) -> (outcome:
        Option<Rvalue>)
        ensures
            (final(self)@, rvalue_option_view(outcome)) == old(self)@.spawning_task(
                value,
                task_type@,
                result@,
                span,
            ),
    {
        let task = self.localize(value, task_type.clone());
        let provenance = self.task_provenance(task);
        let checked_task = ThreadSafetyType::callable(task_type, provenance);
        let checked_result = self.thread_safety_type(&result);
        match self.safety.registry.validate_spawn_then(&checked_task, &checked_result, || {}) {
            Ok(_) => {},
            Err(error) => {
                let message = error.message();
                self.error(message.as_str(), Some(span));
                return Some(Rvalue::ConstInt(0));
            },
        }
        if !self.is_in_state(task, LocalState::Moved) && !self.consume_local(task, Some(span)) {
            return Some(Rvalue::ConstInt(0));
        }
        self.start_thread(task, result)
    }

    /// Finishes `spawn` with the lowered task.
    pub fn lower_thread_spawn(&mut self, value: Option<LoweredValue>, span: Span) -> (outcome: Option<
        Rvalue,
    >)
        ensures
            (final(self)@, rvalue_option_view(outcome)) == old(self)@.finishing_spawn(
                lowered_option_view(value),
                span,
            ),
    {
        let lowered = match value {
            Some(lowered) => lowered,
            None => {
                return None;
            },
        };
        let task_type = match lowered.ty {
            Some(ty) => ty,
            None => {
                self.error("std::thread::spawn task type is unknown", Some(span));
                return Some(Rvalue::ConstInt(0));
            },
        };
        let (takes_nothing, result) = match task_type.function_signature() {
            Some((params, result)) => {
                let result_type = if is_unit_type(result) {
                    Type::Void
                } else {
                    result.clone()
                };
                (params.len() == 0, result_type)
            },
            None => {
                let message = concat3(
                    "std::thread::spawn expects FnOnce() -> T, found '",
                    type_label(&task_type).as_str(),
                    "'",
                );
                self.error(message.as_str(), Some(span));
                return Some(Rvalue::ConstInt(0));
            },
        };
        if !takes_nothing {
            let message = concat3(
                "std::thread::spawn task must take no arguments, found '",
                type_label(&task_type).as_str(),
                "'",
            );
            self.error(message.as_str(), Some(span));
            return Some(Rvalue::ConstInt(0));
        }
        self.spawn_task(lowered.value, task_type, result, span)
    }

    /// The handle type behind the receiver of `join` and `detach`, whose value
    /// is to be lowered towards it. `None` means that normal method resolution
    /// continues.
    pub fn begin_thread_method(&self, receiver: &Expr, method: &str, args: &Vec<Expr>) -> (ty: Option<
        Type,
    >)
        ensures
            type_option_view(ty) == self@.thread_receiver(*receiver, method@, args@),
    {
        if !(same_text(method, "join") || same_text(method, "detach")) || args.len() != 0 {
            return None;
        }
        match self.infer_expr_type(receiver) {
            Some(ty) => {
                if canonical_thread_handle_result(&ty).is_some() {
                    Some(ty)
                } else {
                    None
                }
            },
            None => None,
        }
    }

    fn finish_handle(&mut self, raw: LocalId)
        ensures
            final(self)@ == old(self)@.finishing_handle(raw),
    {
        self.push_inst(MirInst::DropThreadHandle(raw));
        self.set_state(raw, LocalState::Moved);
    }

    fn join_handle(&mut self, handle: LocalId, detach: bool, result_type: Type) -> (value: Rvalue)
        ensures
            (final(self)@, value@) == old(self)@.joining(handle, detach, result_type@),
    {
        proof {
            reveal(LowerState::joining);
        }
        let raw = self.fresh_thread_handle_local();
        self.assign(raw, Rvalue::ThreadHandleIntoRaw { handle });
        let status = self.typed_local(Type::I32);
        if detach {
            self.assign(status, Rvalue::ThreadDetachUnit { handle: raw });
            self.finish_handle(raw);
            return self.emit_status_result(
                status,
                Some(MirValue::Unit),
                unit_thread_status_result_type(),
            );
        }
        if is_unit_type(&result_type) {
            self.assign(status, Rvalue::ThreadJoinUnit { handle: raw });
            self.finish_handle(raw);
            return self.emit_status_result(
                status,
                Some(MirValue::Unit),
                unit_thread_status_result_type(),
            );
        }
        let result = self.typed_local(result_type.clone());
        self.set_state(result, LocalState::Uninitialized);
        self.assign(
            status,
            Rvalue::ThreadJoinResult {
                handle: raw,
                out_result: result,
                result_type: result_type.clone(),
            },
        );
        self.finish_handle(raw);
        self.emit_status_result(
            status,
            Some(MirValue::Local(result)),
            join_result_type(result_type),
        )
    }

    /// Finishes `join` or `detach` with the lowered handle. `None` means that
    /// the handle could not be lowered.
    pub fn lower_thread_method(
        &mut self,
        handle_type: Type,
        detach: bool,
        value: Option<LoweredValue>,
        span: Span,
    ) -> (result: Option<Option<Rvalue>>)
        ensures
            (final(self)@, method_result_view(result)) == old(self)@.finishing_thread_method(
                handle_type@,
                detach,
                lowered_option_view(value),
                span,
            ),
    {
        let lowered = match value {
            Some(lowered) => lowered,
            None => {
                return None;
            },
        };
        let result_type = match canonical_thread_handle_result(&handle_type) {
            Some(ty) => ty.clone(),
            None => {
                return None;
            },
        };
        let handle = self.localize(lowered.value, handle_type);
        if !self.is_in_state(handle, LocalState::Moved) && !self.consume_local(handle, Some(span)) {
            return Some(Some(Rvalue::ConstInt(0)));
        }
        Some(Some(self.join_handle(handle, detach, result_type)))
    }
}

} // verus!
