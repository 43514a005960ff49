//! Canonical compiler types.

use glyph::atomic::AtomicScalar;
use glyph::debug_text::{debug_type, debug_types};
use glyph::types::{
    BorrowedCallableKind, Mutability, Type, ARC_TYPE_CONSTRUCTOR, MUTEX_GUARD_TYPE_CONSTRUCTOR,
};

#[test]
fn arc_uses_one_canonical_type_application() {
    let arc = Type::arc(Type::String);
    assert!(arc.is_arc());
    assert_eq!(arc.arc_inner_type(), Some(&Type::String));
    assert!(
        !Type::App {
            base: "Arc".into(),
            args: vec![Type::String],
        }
        .is_arc()
    );
    assert!(
        !Type::App {
            base: "user::Arc".into(),
            args: vec![Type::String],
        }
        .is_arc()
    );
    assert!(
        !Type::App {
            base: ARC_TYPE_CONSTRUCTOR.into(),
            args: vec![Type::I32, Type::I32],
        }
        .is_arc()
    );
}

#[test]
fn mutex_and_guard_require_canonical_single_argument_applications() {
    let mutex = Type::mutex(Type::I32);
    let guard = Type::mutex_guard(Type::I32);
    assert_eq!(mutex.mutex_inner_type(), Some(&Type::I32));
    assert_eq!(guard.mutex_guard_inner_type(), Some(&Type::I32));
    assert!(
        !Type::App {
            base: "Mutex".into(),
            args: vec![Type::I32]
        }
        .is_mutex()
    );
    assert!(
        !Type::App {
            base: MUTEX_GUARD_TYPE_CONSTRUCTOR.into(),
            args: vec![Type::I32, Type::I32],
        }
        .is_mutex_guard()
    );
}

#[test]
fn spsc_endpoints_are_distinct_canonical_single_argument_applications() {
    let sender = Type::spsc_sender(Type::String);
    let receiver = Type::spsc_receiver(Type::String);
    assert_eq!(sender.spsc_sender_inner_type(), Some(&Type::String));
    assert_eq!(receiver.spsc_receiver_inner_type(), Some(&Type::String));
    assert!(!sender.is_spsc_receiver());
    assert!(!receiver.is_spsc_sender());
    assert!(
        !Type::App {
            base: "Sender".into(),
            args: vec![Type::String],
        }
        .is_spsc_sender()
    );
}

#[test]
fn borrowed_callable_kinds_preserve_their_signature() {
    for kind in [BorrowedCallableKind::Fn, BorrowedCallableKind::FnMut] {
        let callable = Type::BorrowedFunction {
            kind,
            params: vec![Type::I32, Type::Bool],
            ret: Box::new(Type::String),
        };

        assert_eq!(
            callable.function_signature(),
            Some((vec![Type::I32, Type::Bool].as_slice(), &Type::String))
        );
        assert_eq!(callable.borrowed_callable_kind(), Some(kind));
    }

    assert_eq!(
        Type::Function {
            params: vec![],
            ret: Box::new(Type::Void),
        }
        .borrowed_callable_kind(),
        None
    );
}

#[test]
fn accessors_see_exactly_one_layer() {
    let boxed = || Box::new(Type::I32);
    let shared_ref = Type::Ref(boxed(), Mutability::Immutable);
    let exclusive_ref = Type::Ref(boxed(), Mutability::Mutable);
    let array = Type::Array(boxed(), 3);
    let own = Type::Own(boxed());
    let raw = Type::RawPtr(boxed());
    let cell = Type::Shared(boxed());
    assert!(shared_ref.is_ref() && exclusive_ref.is_ref());
    assert!(exclusive_ref.is_mut_ref() && !shared_ref.is_mut_ref());
    assert_eq!(shared_ref.inner_type(), Some(&Type::I32));
    assert!(array.is_array() && !own.is_array());
    assert_eq!(array.array_element_type(), Some(&Type::I32));
    assert_eq!(array.array_size(), Some(3));
    assert_eq!(own.array_size(), None);
    assert!(own.is_own() && !raw.is_own());
    assert_eq!(own.own_inner_type(), Some(&Type::I32));
    assert!(raw.is_raw_ptr() && !cell.is_raw_ptr());
    assert_eq!(raw.raw_ptr_inner_type(), Some(&Type::I32));
    assert!(cell.is_shared() && !own.is_shared());
    assert_eq!(cell.shared_inner_type(), Some(&Type::I32));
    assert_eq!(cell.inner_type(), None);
    assert!(Type::Param("T".to_string()).is_param() && !Type::Void.is_param());
    assert_eq!(Type::Atomic(AtomicScalar::U64).atomic_scalar(), Some(AtomicScalar::U64));
    assert_eq!(Type::U64.atomic_scalar(), None);
    assert!(Type::Char.is_int() && Type::F32.is_float());
    assert!(Type::Usize.is_numeric() && Type::F64.is_numeric() && !Type::Bool.is_numeric());
}

#[test]
fn builtin_names_have_their_short_forms() {
    for (name, expected) in [
        ("i32", Some(Type::I32)),
        ("i", Some(Type::I32)),
        ("u", Some(Type::U32)),
        ("f", Some(Type::F64)),
        ("b", Some(Type::Bool)),
        ("c", Some(Type::Char)),
        ("str", Some(Type::Str)),
        ("String", Some(Type::String)),
        ("AtomicUsize", Some(Type::Atomic(AtomicScalar::Usize))),
        ("s", None),
        ("Vec", None),
    ] {
        assert_eq!(Type::from_name(name), expected, "{name}");
    }
}

#[test]
fn types_are_rendered_as_they_are_built() {
    let nested = Type::App {
        base: "quoted \"name\"".to_string(),
        args: vec![
            Type::Ref(Box::new(Type::I32), Mutability::Mutable),
            Type::Array(Box::new(Type::Str), 12),
        ],
    };
    let callable = Type::BorrowedFunction {
        kind: BorrowedCallableKind::FnMut,
        params: vec![Type::Param("T".to_string()), Type::Atomic(AtomicScalar::U32)],
        ret: Box::new(Type::Tuple(vec![nested.clone(), Type::Void])),
    };
    let types = vec![
        Type::Usize,
        Type::Named("tab\there".to_string()),
        Type::Own(Box::new(Type::Shared(Box::new(Type::RawPtr(Box::new(Type::U8)))))),
        nested,
        callable,
        Type::Tuple(vec![]),
    ];
    for ty in &types {
        assert_eq!(debug_type(ty), format!("{ty:?}"));
    }
    assert_eq!(debug_types(&types), format!("{types:?}"));
    assert_eq!(
        debug_type(&Type::Named("a\"b".to_string())),
        "Named(\"a\\\"b\")"
    );
}
