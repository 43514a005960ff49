//! Compiler contract for native-thread builtins.
//!
//! The surface API specializes `spawn<T>` and `JoinHandle<T>` without requiring
//! general generic functions. MIR keeps the opaque runtime pointer, status,
//! and typed output slot separate. This avoids coupling retry semantics to the
//! user-visible `Result` layout. Only lowering may create raw handle locals.

use vstd::prelude::*;

use crate::thread_safety::{
    spawn_verdict, ThreadSafetyError, ThreadSafetyErrorView, ThreadSafetyRegistry,
    ThreadSafetyType, ThreadSafetyTypeView,
};
use crate::types::{
    apply_constructor, canonical_application, canonical_argument, constructor_argument, same_type,
    type_ref_view, types_view, BorrowedCallableKind, Type, TypeView,
};

verus! {

pub const SCOPED_THREAD_SCOPE_TYPE: &'static str = "std::thread::Scope";

pub const SCOPED_THREAD_HANDLE_TYPE: &'static str = "std::thread::ScopedJoinHandle";

pub const PRIVATE_THREAD_SCOPE_TYPE: &'static str = "$glyph::thread::ScopeRaw";

pub const PRIVATE_SCOPED_THREAD_HANDLE_TYPE: &'static str = "$glyph::thread::ScopedJoinHandleRaw";

pub const THREAD_HANDLE_TYPE: &'static str = "std::thread::JoinHandle";

pub const THREAD_ERROR_TYPE: &'static str = "std::thread::ThreadError";

/// The signature of a task without parameters.
pub open spec fn task_view(result: TypeView) -> TypeView {
    TypeView::Function { params: Seq::empty(), ret: Box::new(result) }
}

/// The `Result` of an operation that may fail with a thread error.
pub open spec fn thread_result_view(ok: TypeView) -> TypeView {
    TypeView::App { base: "Result"@, args: seq![ok, TypeView::Named(THREAD_ERROR_TYPE@)] }
}

/// The only callable signature accepted by the unit spawn primitive.
pub fn unit_task_type() -> (ty: Type)
    ensures
        ty@ == task_view(TypeView::Tuple(Seq::empty())),
{
    let elements: Vec<Type> = Vec::new();
    assert(types_view(elements@) =~= Seq::empty());
    task_type(Type::Tuple(elements))
}

/// Concrete compiler-intrinsic task signature for `spawn<T>`.
pub fn task_type(result: Type) -> (ty: Type)
    ensures
        ty@ == task_view(result@),
{
    let params: Vec<Type> = Vec::new();
    assert(types_view(params@) =~= Seq::empty());
    Type::Function { params, ret: Box::new(result) }
}

/// Concrete borrowed callable signature accepted by a scoped spawn.
pub fn scoped_task_type(kind: BorrowedCallableKind, result: Type) -> (ty: Type)
    ensures
        ty@ == (TypeView::BorrowedFunction {
            kind,
            params: Seq::empty(),
            ret: Box::new(result@),
        }),
{
    let params: Vec<Type> = Vec::new();
    assert(types_view(params@) =~= Seq::empty());
    Type::BorrowedFunction { kind, params, ret: Box::new(result) }
}

/// Private low-level representation of `JoinHandle<()>` in MIR.
///
/// This type must never be surfaced through source type resolution.
pub fn private_unit_handle_type() -> (ty: Type)
    ensures
        ty@ == TypeView::RawPtr(Box::new(TypeView::I8)),
{
    private_thread_handle_type()
}

/// Private low-level representation shared by every `JoinHandle<T>`.
pub fn private_thread_handle_type() -> (ty: Type)
    ensures
        ty@ == TypeView::RawPtr(Box::new(TypeView::I8)),
{
    let inner = Type::I8;
    assert(inner@ == TypeView::I8);
    Type::RawPtr(Box::new(inner))
}

/// Private opaque pointer used while lowering a lexical scope.
pub fn private_thread_scope_type() -> (ty: Type)
    ensures
        ty@ == TypeView::Named(PRIVATE_THREAD_SCOPE_TYPE@),
{
    Type::Named(PRIVATE_THREAD_SCOPE_TYPE.to_owned())
}

/// Private opaque pointer used while lowering a scope-owned child token.
pub fn private_scoped_thread_handle_type(result: Type) -> (ty: Type)
    ensures
        ty@ == canonical_application(PRIVATE_SCOPED_THREAD_HANDLE_TYPE@, result@),
{
    apply_constructor(PRIVATE_SCOPED_THREAD_HANDLE_TYPE, result)
}

pub fn private_scoped_thread_handle_result(ty: &Type) -> (result: Option<&Type>)
    ensures
        type_ref_view(result) == canonical_argument(ty@, PRIVATE_SCOPED_THREAD_HANDLE_TYPE@),
{
    constructor_argument(ty, PRIVATE_SCOPED_THREAD_HANDLE_TYPE)
}

/// Resolver-issued public identity for the unit join handle.
///
/// The generic-looking type is deliberately not backed by a source-visible
/// struct. Codegen maps this one canonical application to opaque pointer
/// storage; a user declaration named `JoinHandle` remains an ordinary type.
pub fn canonical_unit_handle_type() -> (ty: Type)
    ensures
        ty@ == canonical_application(THREAD_HANDLE_TYPE@, TypeView::Void),
{
    canonical_thread_handle_type(Type::Void)
}

/// Resolver-issued public identity for a concrete typed join handle.
pub fn canonical_thread_handle_type(result: Type) -> (ty: Type)
    ensures
        ty@ == canonical_application(THREAD_HANDLE_TYPE@, result@),
{
    apply_constructor(THREAD_HANDLE_TYPE, result)
}

/// Resolver-issued public identity for native thread errors.
pub fn canonical_thread_error_type() -> (ty: Type)
    ensures
        ty@ == TypeView::Named(THREAD_ERROR_TYPE@),
{
    Type::Named(THREAD_ERROR_TYPE.to_owned())
}

/// Resolver-issued identity for the lexical scope token.
pub fn canonical_thread_scope_type() -> (ty: Type)
    ensures
        ty@ == TypeView::Named(SCOPED_THREAD_SCOPE_TYPE@),
{
    Type::Named(SCOPED_THREAD_SCOPE_TYPE.to_owned())
}

/// Resolver-issued identity for a scope-owned typed child token.
pub fn canonical_scoped_thread_handle_type(result: Type) -> (ty: Type)
    ensures
        ty@ == canonical_application(SCOPED_THREAD_HANDLE_TYPE@, result@),
{
    apply_constructor(SCOPED_THREAD_HANDLE_TYPE, result)
}

/// Public result returned by the unit-only spawn primitive.
pub fn unit_spawn_result_type() -> (ty: Type)
    ensures
        ty@ == thread_result_view(canonical_application(THREAD_HANDLE_TYPE@, TypeView::Void)),
{
    spawn_result_type(Type::Void)
}

/// Public result returned by compiler-specialized `spawn<T>`.
pub fn spawn_result_type(result: Type) -> (ty: Type)
    ensures
        ty@ == thread_result_view(canonical_application(THREAD_HANDLE_TYPE@, result@)),
{
    join_result_type(canonical_thread_handle_type(result))
}

/// Public result returned by unit join and detach operations.
pub fn unit_thread_status_result_type() -> (ty: Type)
    ensures
        ty@ == thread_result_view(TypeView::Void),
{
    join_result_type(Type::Void)
}

/// Public result returned by compiler-specialized `JoinHandle<T>::join`.
pub fn join_result_type(result: Type) -> (ty: Type)
    ensures
        ty@ == thread_result_view(result@),
{
    let error = canonical_thread_error_type();
    let args: Vec<Type> = vec![result, error];
    assert(types_view(args@) =~= seq![result@, TypeView::Named(THREAD_ERROR_TYPE@)]);
    Type::App { base: "Result".to_owned(), args }
}

pub fn is_canonical_unit_handle(ty: &Type) -> (is_handle: bool)
    ensures
        is_handle == (ty@ == canonical_application(THREAD_HANDLE_TYPE@, TypeView::Void)),
{
    same_type(ty, &canonical_unit_handle_type())
}

/// Return the concrete result parameter only for the compiler-owned handle.
pub fn canonical_thread_handle_result(ty: &Type) -> (result: Option<&Type>)
    ensures
        type_ref_view(result) == canonical_argument(ty@, THREAD_HANDLE_TYPE@),
{
    constructor_argument(ty, THREAD_HANDLE_TYPE)
}

pub fn is_canonical_thread_handle(ty: &Type) -> (is_handle: bool)
    ensures
        is_handle == canonical_argument(ty@, THREAD_HANDLE_TYPE@) is Some,
{
    canonical_thread_handle_result(ty).is_some()
}

pub fn is_canonical_thread_error(ty: &Type) -> (is_error: bool)
    ensures
        is_error == (ty@ == TypeView::Named(THREAD_ERROR_TYPE@)),
{
    same_type(ty, &canonical_thread_error_type())
}

pub fn canonical_scoped_thread_handle_result(ty: &Type) -> (result: Option<&Type>)
    ensures
        type_ref_view(result) == canonical_argument(ty@, SCOPED_THREAD_HANDLE_TYPE@),
{
    constructor_argument(ty, SCOPED_THREAD_HANDLE_TYPE)
}

pub fn is_canonical_scoped_thread_handle(ty: &Type) -> (is_handle: bool)
    ensures
        is_handle == canonical_argument(ty@, SCOPED_THREAD_HANDLE_TYPE@) is Some,
{
    canonical_scoped_thread_handle_result(ty).is_some()
}

/// Validate the complete thread transfer before emitting spawn MIR.
///
/// In particular, an erased callable without capture provenance is rejected
/// by `validate_spawn_then`; the emitter is never run on a safety error.
pub fn validate_unit_spawn_then<T, F: FnOnce() -> T>(
    registry: &ThreadSafetyRegistry<'_>,
    task: &ThreadSafetyType,
    emit_runtime_mir: F,
) -> (outcome: Result<T, ThreadSafetyError>)
    requires
        spawn_verdict(registry@, task@, ThreadSafetyTypeView::Plain(TypeView::Void)) is Ok
            ==> emit_runtime_mir.requires(()),
    ensures
        match outcome {
            Ok(emitted) => spawn_verdict(
                registry@,
                task@,
                ThreadSafetyTypeView::Plain(TypeView::Void),
            ) is Ok && emit_runtime_mir.ensures((), emitted),
            Err(error) => spawn_verdict(
                registry@,
                task@,
                ThreadSafetyTypeView::Plain(TypeView::Void),
            ) == Err::<(), ThreadSafetyErrorView>(error@),
        },
{
    let result = ThreadSafetyType::plain(Type::Void);
    registry.validate_spawn_then(task, &result, emit_runtime_mir)
}

/// A typed handle gives back its result type; no public, scoped or private
/// handle is taken for another one.
pub proof fn thread_handles_keep_their_result_type(result: TypeView)
    ensures
        canonical_argument(canonical_application(THREAD_HANDLE_TYPE@, result), THREAD_HANDLE_TYPE@)
            == Some(result),
        canonical_argument(
            canonical_application(SCOPED_THREAD_HANDLE_TYPE@, result),
            SCOPED_THREAD_HANDLE_TYPE@,
        ) == Some(result),
        canonical_argument(
            canonical_application(PRIVATE_SCOPED_THREAD_HANDLE_TYPE@, result),
            PRIVATE_SCOPED_THREAD_HANDLE_TYPE@,
        ) == Some(result),
        canonical_argument(
            canonical_application(THREAD_HANDLE_TYPE@, result),
            SCOPED_THREAD_HANDLE_TYPE@,
        ) is None,
        canonical_argument(
            canonical_application(SCOPED_THREAD_HANDLE_TYPE@, result),
            THREAD_HANDLE_TYPE@,
        ) is None,
        canonical_argument(
            canonical_application(SCOPED_THREAD_HANDLE_TYPE@, result),
            PRIVATE_SCOPED_THREAD_HANDLE_TYPE@,
        ) is None,
        canonical_argument(
            canonical_application(PRIVATE_SCOPED_THREAD_HANDLE_TYPE@, result),
            SCOPED_THREAD_HANDLE_TYPE@,
        ) is None,
{
    reveal_strlit("std::thread::JoinHandle");
    reveal_strlit("std::thread::ScopedJoinHandle");
    reveal_strlit("$glyph::thread::ScopedJoinHandleRaw");
    assert(THREAD_HANDLE_TYPE@.len() == 23);
    assert(SCOPED_THREAD_HANDLE_TYPE@.len() == 29);
    assert(PRIVATE_SCOPED_THREAD_HANDLE_TYPE@.len() == 35);
}

} // verus!
