//! Which values are safe, in terms of what is in them: nothing unsafe is hidden by
//! nesting, by a declared name or by recursion.

use vstd::prelude::*;

use crate::table::value_of;
use crate::text::decimal_text;
use crate::thread_safety::{
    constrained, elements_from, entering_a_definition_leaves_fewer, enum_verdict, fields_from,
    is_safe, layout_rule, layout_verdict, monomorphic_fields_from, monomorphic_variants_from,
    nominal_verdict, obligations_from, outcome_ignores_place, plain_elements_from, plain_verdict,
    root_verdict, struct_verdict, unvisited, variants_from, verdict, ApplicationRuleView,
    CanonicalConstructorId, CanonicalNominalId, ConstraintView, DefinitionsView, NominalPolicyView,
    RegistryView, ThreadSafetyRequirement, ThreadSafetyTypeView,
};
use crate::thread_safety_laws::{built_from, policy_built_from, verdicts_stay};
use crate::types::{EnumVariant, Type, TypeView};

verus! {

/// Whether something that must not cross a thread boundary is in a structural type
/// when names are replaced by what they declare, at most `depth` times over: what is
/// borrowed, a raw pointer, an unsynchronized cell, a callable of unknown origin, a
/// generic type that no registry vouches for, an unresolved parameter, or a name
/// without a declaration.
pub open spec fn reaches_unsafe(defs: DefinitionsView, ty: TypeView, depth: nat) -> bool
    decreases depth, 1nat, ty,
{
    match ty {
        TypeView::Str
        | TypeView::Ref(..)
        | TypeView::RawPtr(..)
        | TypeView::Shared(..)
        | TypeView::Param(_)
        | TypeView::Function { .. }
        | TypeView::BorrowedFunction { .. }
        | TypeView::App { .. } => true,
        TypeView::Own(inner) => reaches_unsafe(defs, *inner, depth),
        TypeView::Array(inner, _) => reaches_unsafe(defs, *inner, depth),
        TypeView::Tuple(elements) => any_reaches_unsafe(defs, elements, depth),
        TypeView::Named(name) => match value_of(defs.structs, name) {
            Some(_) => depth > 0 && definition_reaches_unsafe(
                defs,
                (false, name),
                (depth - 1) as nat,
            ),
            None => true,
        },
        TypeView::Enum(name) => match value_of(defs.enums, name) {
            Some(_) => depth > 0 && definition_reaches_unsafe(
                defs,
                (true, name),
                (depth - 1) as nat,
            ),
            None => true,
        },
        _ => false,
    }
}

pub open spec fn any_reaches_unsafe(
    defs: DefinitionsView,
    types: Seq<TypeView>,
    depth: nat,
) -> bool
    decreases depth, 1nat, types,
{
    exists|i: int| 0 <= i < types.len() && reaches_unsafe(defs, #[trigger] types[i], depth)
}

/// The same of a field of a struct, or of a payload of an enum.
pub open spec fn definition_reaches_unsafe(
    defs: DefinitionsView,
    key: (bool, Seq<char>),
    depth: nat,
) -> bool
    decreases depth, 2nat, key,
{
    if key.0 {
        match value_of(defs.enums, key.1) {
            Some(definition) => exists|i: int|
                0 <= i < definition.variants@.len() && (
                #[trigger] definition.variants@[i]).payload is Some && reaches_unsafe(
                    defs,
                    definition.variants@[i].payload->0@,
                    depth,
                ),
            None => false,
        }
    } else {
        match value_of(defs.structs, key.1) {
            Some(definition) => exists|i: int|
                0 <= i < definition.fields@.len() && reaches_unsafe(
                    defs,
                    (#[trigger] definition.fields@[i]).1@,
                    depth,
                ),
            None => false,
        }
    }
}

/// Where a check stands: its path, the definitions under examination and the trace.
spec fn fails(
    defs: DefinitionsView,
    ty: TypeView,
    requirement: ThreadSafetyRequirement,
    path: Seq<char>,
    visiting: Seq<(bool, Seq<char>)>,
    trace: Seq<ConstraintView>,
) -> bool {
    plain_verdict(defs, ty, requirement, path, visiting, trace) is Err
}

spec fn definition_fails(
    defs: DefinitionsView,
    key: (bool, Seq<char>),
    requirement: ThreadSafetyRequirement,
    path: Seq<char>,
    visiting: Seq<(bool, Seq<char>)>,
    trace: Seq<ConstraintView>,
) -> bool {
    if key.0 {
        enum_verdict(defs, key.1, requirement, path, visiting, trace) is Err
    } else {
        struct_verdict(defs, key.1, requirement, path, visiting, trace) is Err
    }
}

spec fn is_declared(defs: DefinitionsView, key: (bool, Seq<char>)) -> bool {
    if key.0 {
        value_of(defs.enums, key.1) is Some
    } else {
        value_of(defs.structs, key.1) is Some
    }
}

proof fn failures_have_a_depth(
    defs: DefinitionsView,
    ty: TypeView,
    requirement: ThreadSafetyRequirement,
    path: Seq<char>,
    visiting: Seq<(bool, Seq<char>)>,
    trace: Seq<ConstraintView>,
) -> (depth: nat)
    requires
        fails(defs, ty, requirement, path, visiting, trace),
    ensures
        reaches_unsafe(defs, ty, depth),
    decreases unvisited(defs, visiting), 1nat, ty, 0nat,
{
    match ty {
        TypeView::Own(inner) => failures_have_a_depth(
            defs,
            *inner,
            requirement,
            path,
            visiting,
            trace,
        ),
        TypeView::Array(inner, _) => failures_have_a_depth(
            defs,
            *inner,
            requirement,
            path + "[]"@,
            visiting,
            trace,
        ),
        TypeView::Tuple(elements) => {
            let (depth, i) = list_failures_have_a_depth(
                defs,
                elements,
                0,
                requirement,
                path,
                visiting,
                trace,
            );
            assert(reaches_unsafe(defs, elements[i], depth));
            assert(any_reaches_unsafe(defs, elements, depth));
            depth
        },
        TypeView::Named(name) => {
            if value_of(defs.structs, name) is Some {
                definition_failures_have_a_depth(
                    defs,
                    (false, name),
                    requirement,
                    path,
                    visiting,
                    trace,
                ) + 1
            } else {
                0
            }
        },
        TypeView::Enum(name) => {
            if value_of(defs.enums, name) is Some {
                definition_failures_have_a_depth(
                    defs,
                    (true, name),
                    requirement,
                    path,
                    visiting,
                    trace,
                ) + 1
            } else {
                0
            }
        },
        _ => 0,
    }
}

proof fn list_failures_have_a_depth(
    defs: DefinitionsView,
    elements: Seq<TypeView>,
    i: nat,
    requirement: ThreadSafetyRequirement,
    path: Seq<char>,
    visiting: Seq<(bool, Seq<char>)>,
    trace: Seq<ConstraintView>,
) -> (found: (nat, int))
    requires
        plain_elements_from(defs, elements, i, requirement, path, visiting, trace) is Err,
    ensures
        0 <= found.1 < elements.len(),
        reaches_unsafe(defs, elements[found.1], found.0),
    decreases unvisited(defs, visiting), 1nat, elements, elements.len() - i,
{
    let inside = path + "["@ + decimal_text(i) + "]"@;
    if fails(defs, elements[i as int], requirement, inside, visiting, trace) {
        (
            failures_have_a_depth(
                defs,
                elements[i as int],
                requirement,
                inside,
                visiting,
                trace,
            ),
            i as int,
        )
    } else {
        list_failures_have_a_depth(defs, elements, i + 1, requirement, path, visiting, trace)
    }
}

proof fn definition_failures_have_a_depth(
    defs: DefinitionsView,
    key: (bool, Seq<char>),
    requirement: ThreadSafetyRequirement,
    path: Seq<char>,
    visiting: Seq<(bool, Seq<char>)>,
    trace: Seq<ConstraintView>,
) -> (depth: nat)
    requires
        definition_fails(defs, key, requirement, path, visiting, trace),
        is_declared(defs, key),
    ensures
        definition_reaches_unsafe(defs, key, depth),
    decreases unvisited(defs, visiting), 0nat, key, 0nat,
{
    entering_a_definition_leaves_fewer(defs, visiting, key);
    if key.0 {
        assert(key == (true, key.1));
        let variants = value_of(defs.enums, key.1)->0.variants@;
        let (depth, i) = payload_failures_have_a_depth(
            defs,
            variants,
            0,
            requirement,
            path,
            visiting.push(key),
            trace,
        );
        assert(variants[i].payload is Some);
        depth
    } else {
        assert(key == (false, key.1));
        let fields = value_of(defs.structs, key.1)->0.fields@;
        let (depth, i) = field_failures_have_a_depth(
            defs,
            fields,
            0,
            requirement,
            path,
            visiting.push(key),
            trace,
        );
        assert(reaches_unsafe(defs, fields[i].1@, depth));
        depth
    }
}

proof fn field_failures_have_a_depth(
    defs: DefinitionsView,
    fields: Seq<(String, Type)>,
    i: int,
    requirement: ThreadSafetyRequirement,
    path: Seq<char>,
    visiting: Seq<(bool, Seq<char>)>,
    trace: Seq<ConstraintView>,
) -> (found: (nat, int))
    requires
        fields_from(defs, fields, i, requirement, path, visiting, trace) is Err,
    ensures
        0 <= found.1 < fields.len(),
        reaches_unsafe(defs, fields[found.1].1@, found.0),
    decreases unvisited(defs, visiting), 2nat, fields, fields.len() - i,
{
    let inside = path + "."@ + fields[i].0@;
    if fails(defs, fields[i].1@, requirement, inside, visiting, trace) {
        (
            failures_have_a_depth(defs, fields[i].1@, requirement, inside, visiting, trace),
            i,
        )
    } else {
        field_failures_have_a_depth(defs, fields, i + 1, requirement, path, visiting, trace)
    }
}

proof fn payload_failures_have_a_depth(
    defs: DefinitionsView,
    variants: Seq<EnumVariant>,
    i: int,
    requirement: ThreadSafetyRequirement,
    path: Seq<char>,
    visiting: Seq<(bool, Seq<char>)>,
    trace: Seq<ConstraintView>,
) -> (found: (nat, int))
    requires
        variants_from(defs, variants, i, requirement, path, visiting, trace) is Err,
    ensures
        0 <= found.1 < variants.len(),
        variants[found.1].payload is Some,
        reaches_unsafe(defs, variants[found.1].payload->0@, found.0),
    decreases unvisited(defs, visiting), 2nat, variants, variants.len() - i,
{
    let inside = path + "::"@ + variants[i].name@;
    if variants[i].payload is Some && fails(
        defs,
        variants[i].payload->0@,
        requirement,
        inside,
        visiting,
        trace,
    ) {
        (
            failures_have_a_depth(
                defs,
                variants[i].payload->0@,
                requirement,
                inside,
                visiting,
                trace,
            ),
            i,
        )
    } else {
        payload_failures_have_a_depth(defs, variants, i + 1, requirement, path, visiting, trace)
    }
}

/// Whether something unsafe is reached from a definition that is under examination,
/// at a depth below `limit`.
spec fn reached_above(
    defs: DefinitionsView,
    visiting: Seq<(bool, Seq<char>)>,
    limit: nat,
) -> bool {
    exists|k: int, depth: nat|
        0 <= k < visiting.len() && depth < limit && #[trigger] definition_reaches_unsafe(
            defs,
            visiting[k],
            depth,
        )
}

proof fn reached_parts_fail(
    defs: DefinitionsView,
    ty: TypeView,
    requirement: ThreadSafetyRequirement,
    path: Seq<char>,
    visiting: Seq<(bool, Seq<char>)>,
    trace: Seq<ConstraintView>,
    depth: nat,
)
    requires
        reaches_unsafe(defs, ty, depth),
    ensures
        fails(defs, ty, requirement, path, visiting, trace) || reached_above(
            defs,
            visiting,
            depth,
        ),
    decreases depth, 1nat, ty, 0nat,
{
    match ty {
        TypeView::Own(inner) => {
            reached_parts_fail(defs, *inner, requirement, path, visiting, trace, depth);
        },
        TypeView::Array(inner, _) => {
            let inside = path + "[]"@;
            reached_parts_fail(defs, *inner, requirement, inside, visiting, trace, depth);
        },
        TypeView::Tuple(elements) => {
            assert(any_reaches_unsafe(defs, elements, depth));
            let k = choose|k: int|
                0 <= k < elements.len() && reaches_unsafe(defs, #[trigger] elements[k], depth);
            reached_elements_fail(
                defs,
                elements,
                0,
                k,
                requirement,
                path,
                visiting,
                trace,
                depth,
            );
        },
        TypeView::Named(name) => {
            if value_of(defs.structs, name) is Some {
                reached_definitions_fail(
                    defs,
                    (false, name),
                    requirement,
                    path,
                    visiting,
                    trace,
                    depth,
                );
            }
            assert(definition_fails(defs, (false, name), requirement, path, visiting, trace)
                || reached_above(defs, visiting, depth));
        },
        TypeView::Enum(name) => {
            if value_of(defs.enums, name) is Some {
                reached_definitions_fail(
                    defs,
                    (true, name),
                    requirement,
                    path,
                    visiting,
                    trace,
                    depth,
                );
            }
            assert(definition_fails(defs, (true, name), requirement, path, visiting, trace)
                || reached_above(defs, visiting, depth));
        },
        _ => {},
    }
}

proof fn reached_elements_fail(
    defs: DefinitionsView,
    elements: Seq<TypeView>,
    i: nat,
    k: int,
    requirement: ThreadSafetyRequirement,
    path: Seq<char>,
    visiting: Seq<(bool, Seq<char>)>,
    trace: Seq<ConstraintView>,
    depth: nat,
)
    requires
        i <= k < elements.len(),
        reaches_unsafe(defs, elements[k], depth),
    ensures
        plain_elements_from(defs, elements, i, requirement, path, visiting, trace) is Err
            || reached_above(defs, visiting, depth),
    decreases depth, 1nat, elements, k - i,
{
    if i == k {
        let inside = path + "["@ + decimal_text(i) + "]"@;
        reached_parts_fail(defs, elements[k], requirement, inside, visiting, trace, depth);
    } else {
        reached_elements_fail(
            defs,
            elements,
            i + 1,
            k,
            requirement,
            path,
            visiting,
            trace,
            depth,
        );
    }
}

proof fn reached_definitions_fail(
    defs: DefinitionsView,
    key: (bool, Seq<char>),
    requirement: ThreadSafetyRequirement,
    path: Seq<char>,
    visiting: Seq<(bool, Seq<char>)>,
    trace: Seq<ConstraintView>,
    depth: nat,
)
    requires
        depth > 0,
        is_declared(defs, key),
        definition_reaches_unsafe(defs, key, (depth - 1) as nat),
    ensures
        definition_fails(defs, key, requirement, path, visiting, trace) || reached_above(
            defs,
            visiting,
            depth,
        ),
    decreases depth, 0nat, key, 0nat,
{
    let below = (depth - 1) as nat;
    if visiting.contains(key) {
        let k = choose|k: int| 0 <= k < visiting.len() && visiting[k] == key;
        assert(definition_reaches_unsafe(defs, visiting[k], below));
    } else {
        let inside = visiting.push(key);
        if key.0 {
            assert(key == (true, key.1));
            let variants = value_of(defs.enums, key.1)->0.variants@;
            let k = choose|k: int|
                0 <= k < variants.len() && (#[trigger] variants[k]).payload is Some
                    && reaches_unsafe(defs, variants[k].payload->0@, below);
            reached_payloads_fail(
                defs,
                variants,
                0,
                k,
                requirement,
                path,
                inside,
                trace,
                below,
            );
        } else {
            assert(key == (false, key.1));
            let fields = value_of(defs.structs, key.1)->0.fields@;
            let k = choose|k: int|
                0 <= k < fields.len() && reaches_unsafe(defs, (#[trigger] fields[k]).1@, below);
            reached_fields_fail(defs, fields, 0, k, requirement, path, inside, trace, below);
        }
        if !definition_fails(defs, key, requirement, path, visiting, trace) {
            let (k, higher) = choose|k: int, higher: nat|
                0 <= k < inside.len() && higher < below && #[trigger] definition_reaches_unsafe(
                    defs,
                    inside[k],
                    higher,
                );
            if k < visiting.len() {
                assert(definition_reaches_unsafe(defs, visiting[k], higher));
            } else {
                // The way leads back to the definition itself, which shortens it.
                reached_definitions_fail(
                    defs,
                    key,
                    requirement,
                    path,
                    visiting,
                    trace,
                    higher + 1,
                );
            }
        }
    }
}

proof fn reached_fields_fail(
    defs: DefinitionsView,
    fields: Seq<(String, Type)>,
    i: int,
    k: int,
    requirement: ThreadSafetyRequirement,
    path: Seq<char>,
    visiting: Seq<(bool, Seq<char>)>,
    trace: Seq<ConstraintView>,
    depth: nat,
)
    requires
        0 <= i <= k < fields.len(),
        reaches_unsafe(defs, fields[k].1@, depth),
    ensures
        fields_from(defs, fields, i, requirement, path, visiting, trace) is Err || reached_above(
            defs,
            visiting,
            depth,
        ),
    decreases depth, 2nat, fields, k - i,
{
    if i == k {
        let inside = path + "."@ + fields[i].0@;
        reached_parts_fail(defs, fields[k].1@, requirement, inside, visiting, trace, depth);
    } else {
        reached_fields_fail(
            defs,
            fields,
            i + 1,
            k,
            requirement,
            path,
            visiting,
            trace,
            depth,
        );
    }
}

proof fn reached_payloads_fail(
    defs: DefinitionsView,
    variants: Seq<EnumVariant>,
    i: int,
    k: int,
    requirement: ThreadSafetyRequirement,
    path: Seq<char>,
    visiting: Seq<(bool, Seq<char>)>,
    trace: Seq<ConstraintView>,
    depth: nat,
)
    requires
        0 <= i <= k < variants.len(),
        variants[k].payload is Some,
        reaches_unsafe(defs, variants[k].payload->0@, depth),
    ensures
        variants_from(defs, variants, i, requirement, path, visiting, trace) is Err
            || reached_above(defs, visiting, depth),
    decreases depth, 2nat, variants, k - i,
{
    if i == k {
        let inside = path + "::"@ + variants[i].name@;
        reached_parts_fail(
            defs,
            variants[k].payload->0@,
            requirement,
            inside,
            visiting,
            trace,
            depth,
        );
    } else {
        reached_payloads_fail(
            defs,
            variants,
            i + 1,
            k,
            requirement,
            path,
            visiting,
            trace,
            depth,
        );
    }
}

/// A structural value is safe exactly if nothing that must not cross is in it,
/// however deep, and whichever of the two requirements is asked.
pub proof fn structural_values_are_safe_without_unsafe_parts(
    reg: RegistryView,
    ty: TypeView,
    requirement: ThreadSafetyRequirement,
)
    ensures
        is_safe(reg, ThreadSafetyTypeView::Plain(ty), requirement) <==> forall|depth: nat|
            !#[trigger] reaches_unsafe(reg.defs, ty, depth),
{
    let path = Seq::<char>::empty();
    let trace = Seq::<ConstraintView>::empty();
    if fails(reg.defs, ty, requirement, path, Seq::empty(), trace) {
        let depth = failures_have_a_depth(
            reg.defs,
            ty,
            requirement,
            path,
            Seq::empty(),
            trace,
        );
        assert(reaches_unsafe(reg.defs, ty, depth));
    }
    if exists|depth: nat| #[trigger] reaches_unsafe(reg.defs, ty, depth) {
        let depth = choose|depth: nat| #[trigger] reaches_unsafe(reg.defs, ty, depth);
        reached_parts_fail(reg.defs, ty, requirement, path, Seq::empty(), trace, depth);
    }
}

/// A check of a part at any place decides whether the part is safe.
proof fn parts_are_judged_as_wholes(
    reg: RegistryView,
    ty: ThreadSafetyTypeView,
    requirement: ThreadSafetyRequirement,
    path: Seq<char>,
    trace: Seq<ConstraintView>,
)
    ensures
        verdict(reg, reg.nominals.len(), ty, requirement, path, trace) is Ok == is_safe(
            reg,
            ty,
            requirement,
        ),
{
    outcome_ignores_place(
        reg,
        reg.nominals.len(),
        ty,
        requirement,
        (path, trace),
        (Seq::empty(), Seq::empty()),
    );
}

/// An owned value and an array are as safe as what is in them, and a tuple is safe
/// exactly if each of its elements is.
pub proof fn composite_values_are_as_safe_as_their_parts(
    reg: RegistryView,
    inner: ThreadSafetyTypeView,
    len: usize,
    elements: Seq<ThreadSafetyTypeView>,
    requirement: ThreadSafetyRequirement,
)
    ensures
        is_safe(reg, ThreadSafetyTypeView::Own(Box::new(inner)), requirement) == is_safe(
            reg,
            inner,
            requirement,
        ),
        is_safe(
            reg,
            ThreadSafetyTypeView::Array { element: Box::new(inner), len },
            requirement,
        ) == is_safe(reg, inner, requirement),
        is_safe(reg, ThreadSafetyTypeView::Tuple(elements), requirement) == (forall|i: int|
            0 <= i < elements.len() ==> is_safe(reg, #[trigger] elements[i], requirement)),
{
    reveal_with_fuel(verdict, 2);
    parts_are_judged_as_wholes(
        reg,
        inner,
        requirement,
        Seq::<char>::empty() + "[]"@,
        Seq::empty(),
    );
    tuples_are_judged_by_element(reg, elements, 0, requirement);
}

proof fn tuples_are_judged_by_element(
    reg: RegistryView,
    elements: Seq<ThreadSafetyTypeView>,
    i: nat,
    requirement: ThreadSafetyRequirement,
)
    ensures
        elements_from(
            reg,
            reg.nominals.len(),
            elements,
            i,
            requirement,
            Seq::empty(),
            Seq::empty(),
        ) is Ok == (forall|j: int|
            i <= j < elements.len() ==> is_safe(reg, #[trigger] elements[j], requirement)),
    decreases elements.len() - i,
{
    if i < elements.len() {
        tuples_are_judged_by_element(reg, elements, i + 1, requirement);
        let inside = Seq::<char>::empty() + "["@ + decimal_text(i) + "]"@;
        parts_are_judged_as_wholes(
            reg,
            elements[i as int],
            requirement,
            inside,
            Seq::empty(),
        );
    }
}

/// A keyed map and a result are safe exactly if both of their arguments are.
pub proof fn two_argument_containers_pass_safety_on(
    reg: RegistryView,
    constructor: CanonicalConstructorId,
    first: ThreadSafetyTypeView,
    second: ThreadSafetyTypeView,
    requirement: ThreadSafetyRequirement,
)
    requires
        reg.constructor(constructor) matches Some((_, policy)) && (policy is KeyedMap
            || policy is Result),
    ensures
        is_safe(
            reg,
            ThreadSafetyTypeView::Application { constructor, args: seq![first, second] },
            requirement,
        ) == (is_safe(reg, first, requirement) && is_safe(reg, second, requirement)),
{
    let (name, policy) = reg.constructor(constructor)->0;
    let args = seq![first, second];
    match policy.rule(name, requirement) {
        ApplicationRuleView::Requires(asked) => {
            reveal_with_fuel(obligations_from, 3);
            let path = Seq::<char>::empty();
            let a = path + asked[0].suffix;
            let b = path + asked[1].suffix;
            assert(args[0] == first && args[1] == second);
            parts_are_judged_as_wholes(
                reg,
                first,
                requirement,
                a,
                constrained(Seq::empty(), a, requirement, asked[0].rule),
            );
            parts_are_judged_as_wholes(
                reg,
                second,
                requirement,
                b,
                constrained(Seq::empty(), b, requirement, asked[1].rule),
            );
            assert(root_verdict(
                reg,
                ThreadSafetyTypeView::Application { constructor, args },
                requirement,
                path,
            ) == obligations_from(
                reg,
                reg.nominals.len(),
                args,
                asked,
                0,
                path,
                Seq::empty(),
            ));
        },
        _ => {},
    }
}

/// A nominal type is judged by its policy: a denied one is never safe, an audited
/// one as the audit says, one with a declaration as that declaration, and one with
/// substituted parts exactly if each part is safe.
pub proof fn nominal_types_are_judged_by_their_policy(
    reg: RegistryView,
    identity: CanonicalNominalId,
    requirement: ThreadSafetyRequirement,
)
    requires
        reg.is_closed(),
        reg.nominal(identity, reg.nominals.len()) is Some,
    ensures
        ({
            let safe = is_safe(reg, ThreadSafetyTypeView::Nominal(identity), requirement);
            match (reg.nominal(identity, reg.nominals.len())->0).1 {
                NominalPolicyView::Deny { .. } => !safe,
                NominalPolicyView::Audited { send, sync, .. } => safe == (if requirement
                    == ThreadSafetyRequirement::Send {
                    send
                } else {
                    sync
                }),
                NominalPolicyView::StructuralStruct { definition } => safe == is_safe(
                    reg,
                    ThreadSafetyTypeView::Plain(TypeView::Named(definition)),
                    requirement,
                ),
                NominalPolicyView::StructuralEnum { definition } => safe == is_safe(
                    reg,
                    ThreadSafetyTypeView::Plain(TypeView::Enum(definition)),
                    requirement,
                ),
                NominalPolicyView::MonomorphicStruct { fields } => safe == (forall|i: int|
                    0 <= i < fields.len() ==> is_safe(reg, (#[trigger] fields[i]).1, requirement)),
                NominalPolicyView::MonomorphicEnum { variants } => safe == (forall|i: int|
                    0 <= i < variants.len() ==> ((#[trigger] variants[i]).1 matches Some(payload)
                        ==> is_safe(reg, payload, requirement))),
            }
        }),
{
    let (name, policy) = reg.nominal(identity, reg.nominals.len())->0;
    let position = identity.position() as nat;
    assert(policy_built_from(reg, position, policy)) by {
        assert(reg.nominals[position as int].1 == policy);
    }
    reveal_with_fuel(verdict, 2);
    let path = Seq::<char>::empty();
    let trace = constrained(Seq::empty(), path, requirement, layout_rule(name, policy));
    assert(root_verdict(reg, ThreadSafetyTypeView::Nominal(identity), requirement, path)
        == nominal_verdict(
        reg,
        reg.nominals.len(),
        identity,
        requirement,
        path,
        Seq::empty(),
    ));
    match policy {
        NominalPolicyView::StructuralStruct { definition } => {
            let ty = ThreadSafetyTypeView::Plain(TypeView::Named(definition));
            parts_are_judged_as_wholes(reg, ty, requirement, path, trace);
            assert(layout_verdict(reg, position, policy, requirement, path, trace)
                == struct_verdict(
                reg.defs,
                definition,
                requirement,
                path,
                Seq::empty(),
                trace,
            ));
        },
        NominalPolicyView::StructuralEnum { definition } => {
            let ty = ThreadSafetyTypeView::Plain(TypeView::Enum(definition));
            parts_are_judged_as_wholes(reg, ty, requirement, path, trace);
            assert(layout_verdict(reg, position, policy, requirement, path, trace)
                == enum_verdict(
                reg.defs,
                definition,
                requirement,
                path,
                Seq::empty(),
                trace,
            ));
        },
        NominalPolicyView::MonomorphicStruct { fields } => {
            substituted_fields_are_judged(reg, position, fields, 0, requirement, path, trace);
            assert(layout_verdict(reg, position, policy, requirement, path, trace)
                == monomorphic_fields_from(reg, position, fields, 0, requirement, path, trace));
        },
        NominalPolicyView::MonomorphicEnum { variants } => {
            substituted_payloads_are_judged(
                reg,
                position,
                variants,
                0,
                requirement,
                path,
                trace,
            );
            assert(layout_verdict(reg, position, policy, requirement, path, trace)
                == monomorphic_variants_from(
                reg,
                position,
                variants,
                0,
                requirement,
                path,
                trace,
            ));
        },
        _ => {},
    }
}

/// What was registered later does not matter to a part.
proof fn earlier_parts_are_judged_as_wholes(
    reg: RegistryView,
    bound: nat,
    ty: ThreadSafetyTypeView,
    requirement: ThreadSafetyRequirement,
    path: Seq<char>,
    trace: Seq<ConstraintView>,
)
    requires
        reg.is_closed(),
        bound <= reg.nominals.len(),
        built_from(reg, bound, ty),
    ensures
        verdict(reg, bound, ty, requirement, path, trace) is Ok == is_safe(reg, ty, requirement),
{
    assert(reg.constructors =~= reg.constructors.subrange(0, reg.constructors.len() as int));
    assert(reg.nominals =~= reg.nominals.subrange(0, reg.nominals.len() as int));
    verdicts_stay(
        reg,
        reg,
        bound,
        reg.nominals.len(),
        ty,
        requirement,
        path,
        trace,
    );
    parts_are_judged_as_wholes(reg, ty, requirement, path, trace);
}

proof fn substituted_fields_are_judged(
    reg: RegistryView,
    bound: nat,
    fields: Seq<(Seq<char>, ThreadSafetyTypeView)>,
    i: int,
    requirement: ThreadSafetyRequirement,
    path: Seq<char>,
    trace: Seq<ConstraintView>,
)
    requires
        0 <= i,
        reg.is_closed(),
        bound <= reg.nominals.len(),
        forall|k: int|
            0 <= k < fields.len() ==> built_from(reg, bound, (#[trigger] fields[k]).1),
    ensures
        monomorphic_fields_from(reg, bound, fields, i, requirement, path, trace) is Ok == (
        forall|j: int|
            i <= j < fields.len() ==> is_safe(reg, (#[trigger] fields[j]).1, requirement)),
    decreases fields.len() - i,
{
    if i < fields.len() {
        substituted_fields_are_judged(reg, bound, fields, i + 1, requirement, path, trace);
        let inside = path + "."@ + fields[i].0;
        earlier_parts_are_judged_as_wholes(
            reg,
            bound,
            fields[i].1,
            requirement,
            inside,
            trace,
        );
    }
}

proof fn substituted_payloads_are_judged(
    reg: RegistryView,
    bound: nat,
    variants: Seq<(Seq<char>, Option<ThreadSafetyTypeView>)>,
    i: int,
    requirement: ThreadSafetyRequirement,
    path: Seq<char>,
    trace: Seq<ConstraintView>,
)
    requires
        0 <= i,
        reg.is_closed(),
        bound <= reg.nominals.len(),
        forall|k: int|
            0 <= k < variants.len() ==> ((#[trigger] variants[k]).1 matches Some(payload)
                ==> built_from(reg, bound, payload)),
    ensures
        monomorphic_variants_from(reg, bound, variants, i, requirement, path, trace) is Ok == (
        forall|j: int|
            i <= j < variants.len() ==> ((#[trigger] variants[j]).1 matches Some(payload)
                ==> is_safe(reg, payload, requirement))),
    decreases variants.len() - i,
{
    if i < variants.len() {
        substituted_payloads_are_judged(reg, bound, variants, i + 1, requirement, path, trace);
        match variants[i].1 {
            Some(payload) => {
                let inside = path + "::"@ + variants[i].0;
                earlier_parts_are_judged_as_wholes(
                    reg,
                    bound,
                    payload,
                    requirement,
                    inside,
                    trace,
                );
            },
            None => {},
        }
    }
}

} // verus!
