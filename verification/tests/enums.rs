//! Enum variants found by name.

use glyph::enums::{find_variant, resolve_enum_variant, VariantLookupError};
use glyph::resolver::ResolverContext;
use glyph::types::{EnumType, EnumVariant, Type};

fn enum_type(name: &str, variants: &[(&str, Option<Type>)]) -> EnumType {
    EnumType {
        name: name.to_string(),
        variants: variants
            .iter()
            .map(|(n, p)| EnumVariant {
                name: n.to_string(),
                payload: p.clone(),
            })
            .collect(),
    }
}

#[test]
fn find_variant_returns_declared_index_and_payload() {
    let opt = enum_type("Option", &[("None", None), ("Some", Some(Type::I32))]);
    let none = find_variant(&opt, "None").expect("None should resolve");
    assert_eq!(none.variant_index, 0);
    assert_eq!(none.payload, None);

    let some = find_variant(&opt, "Some").expect("Some should resolve");
    assert_eq!(some.variant_index, 1);
    assert_eq!(some.payload, Some(Type::I32));
}

#[test]
fn find_variant_respects_non_alphabetical_custom_order() {
    // A custom enum declared with Some/None in the OPPOSITE order from
    // stdlib Option must resolve against its own declaration order, not
    // stdlib's.
    let custom = enum_type("MyOpt", &[("Some", Some(Type::I32)), ("None", None)]);
    let some = find_variant(&custom, "Some").expect("Some should resolve");
    assert_eq!(some.variant_index, 0);
    let none = find_variant(&custom, "None").expect("None should resolve");
    assert_eq!(none.variant_index, 1);
}

#[test]
fn find_variant_unknown_variant_is_none() {
    let opt = enum_type("Option", &[("None", None), ("Some", Some(Type::I32))]);
    assert!(find_variant(&opt, "Nope").is_none());
}

#[test]
fn resolve_enum_variant_unknown_enum() {
    let resolver = ResolverContext::default();
    let err = resolve_enum_variant(&resolver, "DoesNotExist", "X").unwrap_err();
    assert_eq!(err, VariantLookupError::UnknownEnum);
}

#[test]
fn resolve_enum_variant_unknown_variant() {
    let mut resolver = ResolverContext::default();
    resolver
        .enum_types
        .insert("Foo".to_string(), enum_type("Foo", &[("Bar", None)]));
    let err = resolve_enum_variant(&resolver, "Foo", "Baz").unwrap_err();
    assert_eq!(err, VariantLookupError::UnknownVariant);
}

#[test]
fn resolve_enum_variant_success() {
    let mut resolver = ResolverContext::default();
    resolver.enum_types.insert(
        "Foo".to_string(),
        enum_type("Foo", &[("Bar", None), ("Baz", Some(Type::Bool))]),
    );
    let resolved = resolve_enum_variant(&resolver, "Foo", "Baz").expect("should resolve");
    assert_eq!(resolved.variant_index, 1);
    assert_eq!(resolved.payload, Some(Type::Bool));
}
