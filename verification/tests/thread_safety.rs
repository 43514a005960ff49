//! Which values may cross a thread boundary.

use glyph::atomic::AtomicScalar;
use glyph::table::NameMap;
use glyph::thread_safety::{
    CallableCaptureProvenance, CallableProvenanceTable, CallableSendProvenance,
    CanonicalApplicationPolicy, IdentitySpaces, NominalThreadSafetyPolicy, ThreadSafetyRegistry,
    ThreadSafetyRequirement, ThreadSafetyType,
};
use glyph::types::{EnumType, EnumVariant, StructType, Type};

fn function_type() -> Type {
    Type::Function {
        params: vec![],
        ret: Box::new(Type::Void),
    }
}

fn registry<'a>(
    structs: &'a NameMap<StructType>,
    enums: &'a NameMap<EnumType>,
    spaces: &mut IdentitySpaces,
) -> ThreadSafetyRegistry<'a> {
    ThreadSafetyRegistry::new(structs, enums, spaces)
}

fn table<V>(entries: Vec<(&str, V)>) -> NameMap<V> {
    let mut table = NameMap::new();
    for (name, value) in entries {
        table.insert(name.to_string(), value);
    }
    table
}

#[test]
fn scalars_strings_and_atomics_are_send_and_sync() {
    let structs = NameMap::new();
    let enums = NameMap::new();
    let mut spaces = IdentitySpaces::new();
    let registry = registry(&structs, &enums, &mut spaces);
    for ty in [Type::I32, Type::String, Type::Atomic(AtomicScalar::Usize)] {
        let ty = ThreadSafetyType::plain(ty);
        assert!(registry.check_send("value", &ty).is_ok());
        assert!(registry.check_sync("value", &ty).is_ok());
    }
}

#[test]
fn fake_arc_and_mutex_names_do_not_acquire_canonical_policy() {
    let structs = NameMap::new();
    let enums = NameMap::new();
    let mut spaces = IdentitySpaces::new();
    let mut registry = registry(&structs, &enums, &mut spaces);
    let arc = registry.register_constructor("std::sync::Arc", CanonicalApplicationPolicy::Arc);
    let mutex =
        registry.register_constructor("std::sync::Mutex", CanonicalApplicationPolicy::Mutex);

    for base in ["Arc", "Mutex"] {
        let fake = ThreadSafetyType::plain(Type::App {
            base: base.into(),
            args: vec![Type::I32],
        });
        let error = registry.check_send("fake", &fake).unwrap_err();
        assert!(error.reason.contains("no canonical resolver identity"));
    }

    let canonical_arc =
        ThreadSafetyType::application(arc, vec![ThreadSafetyType::plain(Type::I32)]);
    let canonical_mutex =
        ThreadSafetyType::application(mutex, vec![ThreadSafetyType::plain(Type::String)]);
    assert!(registry.check_send("arc", &canonical_arc).is_ok());
    assert!(registry.check_sync("mutex", &canonical_mutex).is_ok());

    let mut other_registry = ThreadSafetyRegistry::new(&structs, &enums, &mut spaces);
    let foreign_arc =
        other_registry.register_constructor("std::sync::Arc", CanonicalApplicationPolicy::Arc);
    let forged_across_compilations =
        ThreadSafetyType::application(foreign_arc, vec![ThreadSafetyType::plain(Type::I32)]);
    let error = registry
        .check_send("foreign", &forged_across_compilations)
        .unwrap_err();
    assert!(error.reason.contains("did not originate"));
}

#[test]
fn monomorphic_generic_aggregates_check_substituted_fields() {
    let structs = NameMap::new();
    let enums = NameMap::new();
    let mut spaces = IdentitySpaces::new();
    let mut registry = registry(&structs, &enums, &mut spaces);
    let vec = registry.register_constructor("std::vec::Vec", CanonicalApplicationPolicy::Vec);
    let good = registry.register_nominal(
        "Wrapper<Vec<i32>>",
        NominalThreadSafetyPolicy::MonomorphicStruct {
            fields: vec![(
                "value".into(),
                ThreadSafetyType::application(vec, vec![ThreadSafetyType::plain(Type::I32)]),
            )],
        },
    );
    let bad = registry.register_nominal(
        "Wrapper<Vec<Shared<i32>>>",
        NominalThreadSafetyPolicy::MonomorphicStruct {
            fields: vec![(
                "value".into(),
                ThreadSafetyType::application(
                    vec,
                    vec![ThreadSafetyType::plain(Type::Shared(Box::new(Type::I32)))],
                ),
            )],
        },
    );

    assert!(
        registry
            .check_send("wrapper", &ThreadSafetyType::nominal(good))
            .is_ok()
    );
    let error = registry
        .check_send("wrapper", &ThreadSafetyType::nominal(bad))
        .unwrap_err();
    assert_eq!(error.path, "wrapper.value.value");
    assert!(
        error.constraint_trace[0]
            .rule
            .contains("Wrapper<Vec<Shared<i32>>>")
    );
    assert!(error.constraint_trace[1].rule.contains("Vec<T>"));
}

#[test]
fn nominal_runtime_handles_are_denied_unless_explicitly_audited() {
    let structs = NameMap::new();
    let enums = NameMap::new();
    let mut spaces = IdentitySpaces::new();
    let mut registry = registry(&structs, &enums, &mut spaces);
    let unsafe_handle = registry.register_nominal(
        "AudioDeviceHandle",
        NominalThreadSafetyPolicy::Deny {
            reason: "audio device handles are bound to their creating thread".into(),
        },
    );
    let audited = registry.register_nominal(
        "ThreadCompletionHandle",
        NominalThreadSafetyPolicy::Audited {
            send: true,
            sync: false,
            reason: "completion handles have one exclusive owner".into(),
        },
    );

    let error = registry
        .check_send("device", &ThreadSafetyType::nominal(unsafe_handle))
        .unwrap_err();
    assert!(error.reason.contains("creating thread"));
    assert!(
        registry
            .check_send("handle", &ThreadSafetyType::nominal(audited))
            .is_ok()
    );
    assert!(
        registry
            .check_sync("handle", &ThreadSafetyType::nominal(audited))
            .is_err()
    );
}

#[test]
fn arc_and_mutex_failures_include_constraint_traces() {
    let structs = NameMap::new();
    let enums = NameMap::new();
    let mut spaces = IdentitySpaces::new();
    let mut registry = registry(&structs, &enums, &mut spaces);
    let arc = registry.register_constructor("std::sync::Arc", CanonicalApplicationPolicy::Arc);
    let mutex =
        registry.register_constructor("std::sync::Mutex", CanonicalApplicationPolicy::Mutex);
    let handle = registry.register_constructor(
        "std::thread::JoinHandle",
        CanonicalApplicationPolicy::JoinHandle,
    );

    let arc_handle = ThreadSafetyType::application(
        arc,
        vec![ThreadSafetyType::application(
            handle,
            vec![ThreadSafetyType::plain(Type::I32)],
        )],
    );
    let arc_error = registry.check_send("arc", &arc_handle).unwrap_err();
    assert_eq!(arc_error.requirement, ThreadSafetyRequirement::Sync);
    assert_eq!(arc_error.path, "arc.value");
    assert_eq!(arc_error.constraint_trace.len(), 1);
    assert!(arc_error.constraint_trace[0].rule.contains("Send + Sync"));

    let mutex_raw = ThreadSafetyType::application(
        mutex,
        vec![ThreadSafetyType::plain(Type::RawPtr(Box::new(Type::I32)))],
    );
    let mutex_error = registry.check_sync("mutex", &mutex_raw).unwrap_err();
    assert_eq!(mutex_error.requirement, ThreadSafetyRequirement::Send);
    assert_eq!(mutex_error.path, "mutex.value");
    assert!(mutex_error.constraint_trace[0].rule.contains("T: Send"));
}

#[test]
fn callable_send_uses_capture_provenance_and_fails_closed_without_it() {
    let structs = NameMap::new();
    let enums = NameMap::new();
    let mut spaces = IdentitySpaces::new();
    let registry = registry(&structs, &enums, &mut spaces);
    let safe = ThreadSafetyType::callable(
        function_type(),
        CallableSendProvenance::OwnedClosure {
            origin: "render task".into(),
            captures: vec![CallableCaptureProvenance::new(
                "samples",
                ThreadSafetyType::plain(Type::String),
            )],
        },
    );
    assert!(registry.check_send("task", &safe).is_ok());

    let unsafe_callable = ThreadSafetyType::callable(
        function_type(),
        CallableSendProvenance::OwnedClosure {
            origin: "render task".into(),
            captures: vec![CallableCaptureProvenance::new(
                "view",
                ThreadSafetyType::plain(Type::Str),
            )],
        },
    );
    let error = registry.check_send("task", &unsafe_callable).unwrap_err();
    assert_eq!(error.path, "task.capture `view`");
    assert!(
        error.constraint_trace[0]
            .rule
            .contains("every capture to be Send")
    );

    let unknown = ThreadSafetyType::callable(
        function_type(),
        CallableSendProvenance::Unknown {
            reason: "loaded from an untracked slot".into(),
        },
    );
    assert!(registry.check_send("task", &unknown).is_err());
}

#[test]
fn callable_provenance_survives_moves_storage_and_returns() {
    let provenance = CallableSendProvenance::FunctionItem {
        symbol: "render".into(),
    };
    let mut table = CallableProvenanceTable::<u32>::default();
    table.insert(0, provenance.clone());
    assert!(table.move_to(&0, 1));
    assert!(table.get(&0).is_none());
    assert!(table.store(&1, 2));
    let returned = table.take_returned(&2).unwrap();
    assert_eq!(returned, provenance);
    table.restore_returned(3, returned);
    assert_eq!(table.get(&3), Some(&provenance));
}

#[test]
fn rejected_spawn_never_emits_runtime_mir() {
    let structs = NameMap::new();
    let enums = NameMap::new();
    let mut spaces = IdentitySpaces::new();
    let registry = registry(&structs, &enums, &mut spaces);
    let task = ThreadSafetyType::callable(
        function_type(),
        CallableSendProvenance::OwnedClosure {
            origin: "task".into(),
            captures: vec![CallableCaptureProvenance::new(
                "raw",
                ThreadSafetyType::plain(Type::RawPtr(Box::new(Type::I32))),
            )],
        },
    );
    let mut emitted = 0;
    let result =
        registry
            .validate_spawn_then(&task, &ThreadSafetyType::plain(Type::Void), || emitted += 1);
    assert!(result.is_err());
    assert_eq!(emitted, 0);

    let function_item = ThreadSafetyType::callable(
        function_type(),
        CallableSendProvenance::FunctionItem {
            symbol: "task".into(),
        },
    );
    let result = registry.validate_spawn_then(
        &function_item,
        &ThreadSafetyType::plain(Type::Shared(Box::new(Type::I32))),
        || emitted += 1,
    );
    assert!(result.is_err());
    assert_eq!(emitted, 0);
}

#[test]
fn nested_struct_and_enum_report_exact_paths() {
    let structs = table(vec![
        (
            "Inner",
            StructType {
                name: "Inner".into(),
                fields: vec![("raw".into(), Type::RawPtr(Box::new(Type::I32)))],
            },
        ),
        (
            "Outer",
            StructType {
                name: "Outer".into(),
                fields: vec![("inner".into(), Type::Named("Inner".into()))],
            },
        ),
    ]);
    let enums = table(vec![(
        "Message",
        EnumType {
            name: "Message".into(),
            variants: vec![EnumVariant {
                name: "Data".into(),
                payload: Some(Type::Tuple(vec![
                    Type::I32,
                    Type::Shared(Box::new(Type::I32)),
                ])),
            }],
        },
    )]);
    let mut spaces = IdentitySpaces::new();
    let registry = registry(&structs, &enums, &mut spaces);
    assert_eq!(
        registry
            .check_send(
                "capture `state`",
                &ThreadSafetyType::plain(Type::Named("Outer".into())),
            )
            .unwrap_err()
            .path,
        "capture `state`.inner.raw"
    );
    assert_eq!(
        registry
            .check_send(
                "message",
                &ThreadSafetyType::plain(Type::Enum("Message".into())),
            )
            .unwrap_err()
            .path,
        "message::Data[1]"
    );
}

#[test]
fn recursive_owned_types_terminate_without_hiding_bad_edges() {
    let structs = table(vec![
        (
            "Node",
            StructType {
                name: "Node".into(),
                fields: vec![(
                    "next".into(),
                    Type::Own(Box::new(Type::Named("Node".into()))),
                )],
            },
        ),
        (
            "BadNode",
            StructType {
                name: "BadNode".into(),
                fields: vec![
                    (
                        "next".into(),
                        Type::Own(Box::new(Type::Named("BadNode".into()))),
                    ),
                    ("shared".into(), Type::Shared(Box::new(Type::I32))),
                ],
            },
        ),
    ]);
    let enums = NameMap::new();
    let mut spaces = IdentitySpaces::new();
    let registry = registry(&structs, &enums, &mut spaces);
    assert!(
        registry
            .check_send("node", &ThreadSafetyType::plain(Type::Named("Node".into())),)
            .is_ok()
    );
    assert_eq!(
        registry
            .check_send(
                "node",
                &ThreadSafetyType::plain(Type::Named("BadNode".into())),
            )
            .unwrap_err()
            .path,
        "node.shared"
    );
}

#[test]
fn identities_tell_registrations_apart() {
    let structs = NameMap::new();
    let enums = NameMap::new();
    let mut spaces = IdentitySpaces::new();
    let mut first = registry(&structs, &enums, &mut spaces);
    let mut second = registry(&structs, &enums, &mut spaces);
    let mut issued = Vec::new();
    for registry in [&mut first, &mut second] {
        for _ in 0..3 {
            issued.push(
                registry.register_constructor("std::vec::Vec", CanonicalApplicationPolicy::Vec),
            );
        }
    }
    for (i, id) in issued.iter().enumerate() {
        for other in &issued[i + 1..] {
            assert_ne!(id, other);
        }
    }
}

#[test]
fn spaces_start_over_after_the_largest_one_only() {
    let mut spaces = IdentitySpaces::new();
    let drawn: Vec<u64> = (0..4).map(|_| spaces.fresh()).collect();
    assert_eq!(drawn, vec![1, 2, 3, 4]);
}

#[test]
fn later_registrations_change_no_verdict() {
    let structs = NameMap::new();
    let enums = NameMap::new();
    let mut spaces = IdentitySpaces::new();
    let mut registry = registry(&structs, &enums, &mut spaces);
    let arc = registry.register_constructor("std::sync::Arc", CanonicalApplicationPolicy::Arc);
    let handle = registry.register_nominal(
        "AudioOut",
        NominalThreadSafetyPolicy::Deny { reason: "owned by one thread".into() },
    );
    let good = ThreadSafetyType::application(arc, vec![ThreadSafetyType::plain(Type::I32)]);
    let bad = ThreadSafetyType::application(arc, vec![ThreadSafetyType::nominal(handle)]);
    let before = registry.check_send("value", &bad).unwrap_err();
    assert!(registry.check_send("value", &good).is_ok());

    registry.register_constructor("std::sync::Arc", CanonicalApplicationPolicy::Vec);
    registry.register_nominal(
        "AudioOut",
        NominalThreadSafetyPolicy::Audited { send: true, sync: true, reason: "none".into() },
    );
    assert!(registry.check_send("value", &good).is_ok());
    assert_eq!(registry.check_send("value", &bad).unwrap_err(), before);
}

#[test]
fn display_names_select_nothing() {
    let structs = NameMap::new();
    let enums = NameMap::new();
    for name in ["std::sync::Arc", "std::vec::Vec", ""] {
        let mut spaces = IdentitySpaces::new();
        let mut registry = registry(&structs, &enums, &mut spaces);
        let mutex = registry.register_constructor(name, CanonicalApplicationPolicy::Mutex);
        let sender = registry.register_constructor(name, CanonicalApplicationPolicy::Sender);
        let inner = ThreadSafetyType::application(sender, vec![ThreadSafetyType::plain(Type::I32)]);
        let outer = ThreadSafetyType::application(mutex, vec![inner.clone()]);
        assert!(registry.check_sync("value", &inner).is_err());
        assert!(registry.check_sync("value", &outer).is_ok());
    }
}

#[test]
fn a_rejected_mutex_names_what_it_asked_of_its_value() {
    let structs = NameMap::new();
    let enums = NameMap::new();
    let mut spaces = IdentitySpaces::new();
    let mut registry = registry(&structs, &enums, &mut spaces);
    let mutex =
        registry.register_constructor("std::sync::Mutex", CanonicalApplicationPolicy::Mutex);
    let vec = registry.register_constructor("std::vec::Vec", CanonicalApplicationPolicy::Vec);
    let items = ThreadSafetyType::application(
        vec,
        vec![ThreadSafetyType::plain(Type::Shared(Box::new(Type::I32)))],
    );
    let ty = ThreadSafetyType::application(mutex, vec![items]);
    let error = registry.check_sync("state", &ty).unwrap_err();
    assert_eq!(error.path, "state.value.value");
    let trace: Vec<(&str, ThreadSafetyRequirement)> = error
        .constraint_trace
        .iter()
        .map(|constraint| (constraint.path.as_str(), constraint.requirement))
        .collect();
    assert_eq!(
        trace,
        vec![
            ("state.value", ThreadSafetyRequirement::Send),
            ("state.value.value", ThreadSafetyRequirement::Send),
        ]
    );
}

#[test]
fn a_taken_callable_is_gone_until_it_is_given_back() {
    let provenance = || CallableSendProvenance::FunctionItem { symbol: "task".into() };
    let mut table: CallableProvenanceTable<u32> = CallableProvenanceTable::default();
    table.insert(1, provenance());
    table.insert(2, CallableSendProvenance::Unknown { reason: "other".into() });
    assert_eq!(table.take_returned(&1), Some(provenance()));
    assert_eq!(table.take_returned(&1), None);
    assert!(!table.move_to(&1, 3));
    table.restore_returned(1, provenance());
    assert_eq!(table.get(&1), Some(&provenance()));
    assert!(table.store(&1, 3));
    assert_eq!(table.get(&1), None);
    assert_eq!(table.get(&3), Some(&provenance()));
    assert!(table.get(&2).is_some());
}

#[test]
fn the_failing_requirement_is_the_one_that_was_selected() {
    let structs = NameMap::new();
    let enums = NameMap::new();
    let mut spaces = IdentitySpaces::new();
    let mut registry = registry(&structs, &enums, &mut spaces);
    let arc = registry.register_constructor("std::sync::Arc", CanonicalApplicationPolicy::Arc);
    let sender =
        registry.register_constructor("std::sync::Sender", CanonicalApplicationPolicy::Sender);

    // Moving an `Arc` asks that its value be shared.
    let inner = ThreadSafetyType::application(sender, vec![ThreadSafetyType::plain(Type::I32)]);
    let outer = ThreadSafetyType::application(arc, vec![inner.clone()]);
    let error = registry.check_send("value", &outer).unwrap_err();
    assert_eq!(error.requirement, ThreadSafetyRequirement::Sync);
    assert_eq!(
        error.constraint_trace.last().map(|constraint| constraint.requirement),
        Some(ThreadSafetyRequirement::Sync)
    );

    // Without a constraint on the way it is what was asked for.
    let error = registry.check_sync("value", &inner).unwrap_err();
    assert_eq!(error.requirement, ThreadSafetyRequirement::Sync);
    assert!(error.constraint_trace.is_empty());
}
