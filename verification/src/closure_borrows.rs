//! Borrowed data is found in a type at any depth, recursive definitions
//! included.

use vstd::prelude::*;

use crate::closure_analysis::{
    any_holds_borrowed, definitions, enum_holds_borrowed, fields_hold_borrowed, holds_borrowed,
    payload_holds_borrowed, payloads_hold_borrowed, struct_holds_borrowed,
};
use crate::resolver::ResolverFacts;
use crate::table::value_of;
use crate::thread_safety::{entering_a_definition_leaves_fewer, unvisited};
use crate::types::TypeView;

verus! {

/// Whether borrowed data is part of a type when names are replaced by what they
/// declare, at most `depth` times over.
pub open spec fn reaches_borrowed(resolver: ResolverFacts, ty: TypeView, depth: nat) -> bool
    decreases depth, 1nat, ty,
{
    match ty {
        TypeView::Str | TypeView::Ref(..) | TypeView::BorrowedFunction { .. } => true,
        TypeView::Array(inner, _) => reaches_borrowed(resolver, *inner, depth),
        TypeView::Own(inner) => reaches_borrowed(resolver, *inner, depth),
        TypeView::RawPtr(inner) => reaches_borrowed(resolver, *inner, depth),
        TypeView::Shared(inner) => reaches_borrowed(resolver, *inner, depth),
        TypeView::App { base, args } => any_reaches_borrowed(resolver, args, depth) || (depth > 0
            && (definition_reaches_borrowed(resolver, (false, base), (depth - 1) as nat)
            || definition_reaches_borrowed(resolver, (true, base), (depth - 1) as nat))),
        TypeView::Tuple(args) => any_reaches_borrowed(resolver, args, depth),
        TypeView::Function { params, ret } => any_reaches_borrowed(resolver, params, depth)
            || reaches_borrowed(resolver, *ret, depth),
        TypeView::Named(name) => depth > 0 && (definition_reaches_borrowed(
            resolver,
            (false, name),
            (depth - 1) as nat,
        ) || definition_reaches_borrowed(resolver, (true, name), (depth - 1) as nat)),
        TypeView::Enum(name) => depth > 0 && definition_reaches_borrowed(
            resolver,
            (true, name),
            (depth - 1) as nat,
        ),
        _ => false,
    }
}

pub open spec fn any_reaches_borrowed(
    resolver: ResolverFacts,
    types: Seq<TypeView>,
    depth: nat,
) -> bool
    decreases depth, 1nat, types,
{
    exists|i: int|
        0 <= i < types.len() && reaches_borrowed(resolver, #[trigger] types[i], depth)
}

/// The same of a field of a struct, or of a payload of an enum.
pub open spec fn definition_reaches_borrowed(
    resolver: ResolverFacts,
    key: (bool, Seq<char>),
    depth: nat,
) -> bool
    decreases depth, 2nat, key,
{
    if key.0 {
        match value_of(resolver.enum_types, key.1) {
            Some(definition) => exists|i: int|
                0 <= i < definition.variants@.len() && (
                #[trigger] definition.variants@[i]).payload is Some && reaches_borrowed(
                    resolver,
                    definition.variants@[i].payload->0@,
                    depth,
                ),
            None => false,
        }
    } else {
        match value_of(resolver.struct_types, key.1) {
            Some(definition) => exists|i: int|
                0 <= i < definition.fields@.len() && reaches_borrowed(
                    resolver,
                    (#[trigger] definition.fields@[i]).1@,
                    depth,
                ),
            None => false,
        }
    }
}

/// Whether the definition `key` holds borrowed data.
spec fn definition_holds_borrowed(
    resolver: ResolverFacts,
    key: (bool, Seq<char>),
    visiting: Seq<(bool, Seq<char>)>,
) -> bool {
    if key.0 {
        enum_holds_borrowed(resolver, key.1, visiting)
    } else {
        struct_holds_borrowed(resolver, key.1, visiting)
    }
}

/// What is found lies at some depth.
proof fn found_data_has_a_depth(
    resolver: ResolverFacts,
    ty: TypeView,
    visiting: Seq<(bool, Seq<char>)>,
) -> (depth: nat)
    requires
        holds_borrowed(resolver, ty, visiting),
    ensures
        reaches_borrowed(resolver, ty, depth),
    decreases unvisited(definitions(resolver), visiting), 1nat, ty,
{
    match ty {
        TypeView::Array(inner, _) => found_data_has_a_depth(resolver, *inner, visiting),
        TypeView::Own(inner) => found_data_has_a_depth(resolver, *inner, visiting),
        TypeView::RawPtr(inner) => found_data_has_a_depth(resolver, *inner, visiting),
        TypeView::Shared(inner) => found_data_has_a_depth(resolver, *inner, visiting),
        TypeView::App { base, args } => {
            if any_holds_borrowed(resolver, args, visiting) {
                found_list_has_a_depth(resolver, args, visiting)
            } else if struct_holds_borrowed(resolver, base, visiting) {
                found_definition_has_a_depth(resolver, (false, base), visiting) + 1
            } else {
                found_definition_has_a_depth(resolver, (true, base), visiting) + 1
            }
        },
        TypeView::Tuple(args) => found_list_has_a_depth(resolver, args, visiting),
        TypeView::Function { params, ret } => {
            if any_holds_borrowed(resolver, params, visiting) {
                found_list_has_a_depth(resolver, params, visiting)
            } else {
                found_data_has_a_depth(resolver, *ret, visiting)
            }
        },
        TypeView::Named(name) => {
            if struct_holds_borrowed(resolver, name, visiting) {
                found_definition_has_a_depth(resolver, (false, name), visiting) + 1
            } else {
                found_definition_has_a_depth(resolver, (true, name), visiting) + 1
            }
        },
        TypeView::Enum(name) => {
            found_definition_has_a_depth(resolver, (true, name), visiting) + 1
        },
        _ => 0,
    }
}

proof fn found_list_has_a_depth(
    resolver: ResolverFacts,
    types: Seq<TypeView>,
    visiting: Seq<(bool, Seq<char>)>,
) -> (depth: nat)
    requires
        any_holds_borrowed(resolver, types, visiting),
    ensures
        any_reaches_borrowed(resolver, types, depth),
    decreases unvisited(definitions(resolver), visiting), 1nat, types,
{
    let i = choose|i: int|
        0 <= i < types.len() && holds_borrowed(resolver, #[trigger] types[i], visiting);
    found_data_has_a_depth(resolver, types[i], visiting)
}

proof fn found_definition_has_a_depth(
    resolver: ResolverFacts,
    key: (bool, Seq<char>),
    visiting: Seq<(bool, Seq<char>)>,
) -> (depth: nat)
    requires
        definition_holds_borrowed(resolver, key, visiting),
    ensures
        definition_reaches_borrowed(resolver, key, depth),
    decreases unvisited(definitions(resolver), visiting), 0nat, key,
{
    let inside = visiting.push(key);
    entering_a_definition_leaves_fewer(definitions(resolver), visiting, key);
    if key.0 {
        assert(key == (true, key.1));
        let variants = value_of(resolver.enum_types, key.1)->0.variants@;
        assert(payloads_hold_borrowed(resolver, variants, inside));
        let i = choose|i: int|
            0 <= i < variants.len() && payload_holds_borrowed(
                resolver,
                #[trigger] variants[i],
                inside,
            );
        found_data_has_a_depth(resolver, variants[i].payload->0@, inside)
    } else {
        assert(key == (false, key.1));
        let fields = value_of(resolver.struct_types, key.1)->0.fields@;
        assert(fields_hold_borrowed(resolver, fields, inside));
        let i = choose|i: int|
            0 <= i < fields.len() && holds_borrowed(resolver, (#[trigger] fields[i]).1@, inside);
        found_data_has_a_depth(resolver, fields[i].1@, inside)
    }
}

/// Whether borrowed data is reached from a definition that is under examination,
/// at a depth below `limit`.
spec fn reached_above(
    resolver: ResolverFacts,
    visiting: Seq<(bool, Seq<char>)>,
    limit: nat,
) -> bool {
    exists|k: int, depth: nat|
        0 <= k < visiting.len() && depth < limit && #[trigger] definition_reaches_borrowed(
            resolver,
            visiting[k],
            depth,
        )
}

/// What lies at some depth is found, unless a definition that is under
/// examination already leads there.
proof fn reached_data_is_found(
    resolver: ResolverFacts,
    ty: TypeView,
    visiting: Seq<(bool, Seq<char>)>,
    depth: nat,
)
    requires
        reaches_borrowed(resolver, ty, depth),
    ensures
        holds_borrowed(resolver, ty, visiting) || reached_above(resolver, visiting, depth),
    decreases depth, 1nat, ty,
{
    match ty {
        TypeView::Array(inner, _) => {
            reached_data_is_found(resolver, *inner, visiting, depth);
        },
        TypeView::Own(inner) => {
            reached_data_is_found(resolver, *inner, visiting, depth);
        },
        TypeView::RawPtr(inner) => {
            reached_data_is_found(resolver, *inner, visiting, depth);
        },
        TypeView::Shared(inner) => {
            reached_data_is_found(resolver, *inner, visiting, depth);
        },
        TypeView::App { base, args } => {
            if any_reaches_borrowed(resolver, args, depth) {
                reached_list_is_found(resolver, args, visiting, depth);
            } else if definition_reaches_borrowed(resolver, (false, base), (depth - 1) as nat) {
                reached_definition_is_found(resolver, (false, base), visiting, depth);
            } else {
                reached_definition_is_found(resolver, (true, base), visiting, depth);
            }
        },
        TypeView::Tuple(args) => {
            reached_list_is_found(resolver, args, visiting, depth);
        },
        TypeView::Function { params, ret } => {
            if any_reaches_borrowed(resolver, params, depth) {
                reached_list_is_found(resolver, params, visiting, depth);
            } else {
                reached_data_is_found(resolver, *ret, visiting, depth);
            }
        },
        TypeView::Named(name) => {
            if definition_reaches_borrowed(resolver, (false, name), (depth - 1) as nat) {
                reached_definition_is_found(resolver, (false, name), visiting, depth);
            } else {
                reached_definition_is_found(resolver, (true, name), visiting, depth);
            }
        },
        TypeView::Enum(name) => {
            reached_definition_is_found(resolver, (true, name), visiting, depth);
        },
        _ => {},
    }
}

proof fn reached_list_is_found(
    resolver: ResolverFacts,
    types: Seq<TypeView>,
    visiting: Seq<(bool, Seq<char>)>,
    depth: nat,
)
    requires
        any_reaches_borrowed(resolver, types, depth),
    ensures
        any_holds_borrowed(resolver, types, visiting) || reached_above(resolver, visiting, depth),
    decreases depth, 1nat, types,
{
    let i = choose|i: int|
        0 <= i < types.len() && reaches_borrowed(resolver, #[trigger] types[i], depth);
    reached_data_is_found(resolver, types[i], visiting, depth);
}

proof fn reached_definition_is_found(
    resolver: ResolverFacts,
    key: (bool, Seq<char>),
    visiting: Seq<(bool, Seq<char>)>,
    depth: nat,
)
    requires
        depth > 0,
        definition_reaches_borrowed(resolver, key, (depth - 1) as nat),
    ensures
        definition_holds_borrowed(resolver, key, visiting) || reached_above(
            resolver,
            visiting,
            depth,
        ),
    decreases depth, 0nat, key,
{
    let below = (depth - 1) as nat;
    if visiting.contains(key) {
        let k = choose|k: int| 0 <= k < visiting.len() && visiting[k] == key;
        assert(definition_reaches_borrowed(resolver, visiting[k], below));
    } else {
        let inside = visiting.push(key);
        if key.0 {
            assert(key == (true, key.1));
            let variants = value_of(resolver.enum_types, key.1)->0.variants@;
            let i = choose|i: int|
                0 <= i < variants.len() && (#[trigger] variants[i]).payload is Some
                    && reaches_borrowed(resolver, variants[i].payload->0@, below);
            reached_data_is_found(resolver, variants[i].payload->0@, inside, below);
            if holds_borrowed(resolver, variants[i].payload->0@, inside) {
                assert(payload_holds_borrowed(resolver, variants[i], inside));
                assert(payloads_hold_borrowed(resolver, variants, inside));
            }
        } else {
            assert(key == (false, key.1));
            let fields = value_of(resolver.struct_types, key.1)->0.fields@;
            let i = choose|i: int|
                0 <= i < fields.len() && reaches_borrowed(
                    resolver,
                    (#[trigger] fields[i]).1@,
                    below,
                );
            reached_data_is_found(resolver, fields[i].1@, inside, below);
            if holds_borrowed(resolver, fields[i].1@, inside) {
                assert(fields_hold_borrowed(resolver, fields, inside));
            }
        }
        if !definition_holds_borrowed(resolver, key, visiting) {
            let (k, higher) = choose|k: int, higher: nat|
                0 <= k < inside.len() && higher < below && #[trigger] definition_reaches_borrowed(
                    resolver,
                    inside[k],
                    higher,
                );
            if k < visiting.len() {
                assert(definition_reaches_borrowed(resolver, visiting[k], higher));
            } else {
                // The way leads back to the definition itself, which shortens it.
                reached_definition_is_found(resolver, key, visiting, higher + 1);
            }
        }
    }
}

/// A type holds borrowed data exactly if a reference, a `str` or a borrowed
/// callable is reached by following its parts and the definitions of the names in
/// it, however deep: that a definition is not entered again while it is under
/// examination hides nothing.
pub proof fn borrowed_data_is_found_at_any_depth(resolver: ResolverFacts, ty: TypeView)
    ensures
        holds_borrowed(resolver, ty, Seq::empty()) <==> exists|depth: nat| #[trigger]
            reaches_borrowed(resolver, ty, depth),
{
    if holds_borrowed(resolver, ty, Seq::empty()) {
        let depth = found_data_has_a_depth(resolver, ty, Seq::empty());
        assert(reaches_borrowed(resolver, ty, depth));
    }
    if exists|depth: nat| #[trigger] reaches_borrowed(resolver, ty, depth) {
        let depth = choose|depth: nat| #[trigger] reaches_borrowed(resolver, ty, depth);
        reached_data_is_found(resolver, ty, Seq::empty(), depth);
    }
}

} // verus!
