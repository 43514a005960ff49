//! Thread types and the checks before a thread is started.

use glyph::table::NameMap;
use glyph::thread::{
    canonical_scoped_thread_handle_result, canonical_scoped_thread_handle_type,
    canonical_thread_error_type, canonical_thread_handle_result, canonical_thread_handle_type,
    canonical_thread_scope_type, canonical_unit_handle_type, is_canonical_scoped_thread_handle,
    is_canonical_thread_error, is_canonical_thread_handle, is_canonical_unit_handle,
    private_scoped_thread_handle_result, private_scoped_thread_handle_type,
    private_thread_scope_type, private_unit_handle_type, scoped_task_type, spawn_result_type,
    unit_spawn_result_type, unit_task_type, unit_thread_status_result_type,
    validate_unit_spawn_then, PRIVATE_THREAD_SCOPE_TYPE, SCOPED_THREAD_SCOPE_TYPE,
};
use glyph::thread_safety::{
    CallableSendProvenance, IdentitySpaces, ThreadSafetyRegistry, ThreadSafetyType,
};
use glyph::types::{BorrowedCallableKind, Type};

#[test]
fn unit_spawn_gate_fails_closed_before_emission() {
    let structs = NameMap::new();
    let enums = NameMap::new();
    let mut spaces = IdentitySpaces::new();
    let registry = ThreadSafetyRegistry::new(&structs, &enums, &mut spaces);
    let task = ThreadSafetyType::callable(
        unit_task_type(),
        CallableSendProvenance::Unknown {
            reason: "callable loaded without its provenance certificate".into(),
        },
    );
    let mut emitted = false;

    let error = validate_unit_spawn_then(&registry, &task, || emitted = true).unwrap_err();

    assert!(!emitted);
    assert!(error.reason.contains("provenance is unknown"));
}

#[test]
fn unit_spawn_gate_accepts_a_function_item() {
    let structs = NameMap::new();
    let enums = NameMap::new();
    let mut spaces = IdentitySpaces::new();
    let registry = ThreadSafetyRegistry::new(&structs, &enums, &mut spaces);
    let task = ThreadSafetyType::callable(
        unit_task_type(),
        CallableSendProvenance::FunctionItem {
            symbol: "worker".into(),
        },
    );

    assert_eq!(validate_unit_spawn_then(&registry, &task, || 42), Ok(42));
}

#[test]
fn low_level_handle_representation_stays_explicitly_private_and_opaque() {
    assert_eq!(private_unit_handle_type(), Type::RawPtr(Box::new(Type::I8)));
}

#[test]
fn typed_handle_identity_retains_its_concrete_result() {
    let result = Type::Tuple(vec![Type::I32, Type::String]);
    let handle = canonical_thread_handle_type(result.clone());

    assert!(is_canonical_thread_handle(&handle));
    assert_eq!(canonical_thread_handle_result(&handle), Some(&result));
    assert!(!is_canonical_thread_handle(&Type::App {
        base: "user::JoinHandle".into(),
        args: vec![result],
    }));
}

#[test]
fn scoped_identities_are_canonical_and_keep_the_result_type() {
    let result = Type::Tuple(vec![Type::I32, Type::String]);
    let handle = canonical_scoped_thread_handle_type(result.clone());

    assert_eq!(
        canonical_thread_scope_type(),
        Type::Named(SCOPED_THREAD_SCOPE_TYPE.into())
    );
    assert!(is_canonical_scoped_thread_handle(&handle));
    assert_eq!(
        canonical_scoped_thread_handle_result(&handle),
        Some(&result)
    );
    assert!(!is_canonical_scoped_thread_handle(&Type::App {
        base: "user::ScopedJoinHandle".into(),
        args: vec![result.clone()],
    }));
    assert_eq!(
        private_thread_scope_type(),
        Type::Named(PRIVATE_THREAD_SCOPE_TYPE.into())
    );
    assert_ne!(
        private_thread_scope_type(),
        private_scoped_thread_handle_type(Type::Void)
    );
    assert_eq!(
        private_scoped_thread_handle_result(&private_scoped_thread_handle_type(result.clone())),
        Some(&result)
    );
}

#[test]
fn thread_results_name_the_compiler_owned_types() {
    let result = |ok: Type| Type::App {
        base: "Result".to_string(),
        args: vec![ok, canonical_thread_error_type()],
    };
    assert_eq!(unit_spawn_result_type(), result(canonical_unit_handle_type()));
    assert_eq!(spawn_result_type(Type::I32), result(canonical_thread_handle_type(Type::I32)));
    assert_eq!(unit_thread_status_result_type(), result(Type::Void));
    assert!(is_canonical_unit_handle(&canonical_unit_handle_type()));
    assert!(!is_canonical_unit_handle(&canonical_thread_handle_type(Type::I32)));
    assert!(is_canonical_thread_error(&canonical_thread_error_type()));
    assert!(!is_canonical_thread_error(&Type::Named("ThreadError".to_string())));
    assert_eq!(
        scoped_task_type(BorrowedCallableKind::FnMut, Type::I32),
        Type::BorrowedFunction {
            kind: BorrowedCallableKind::FnMut,
            params: vec![],
            ret: Box::new(Type::I32),
        }
    );
}
