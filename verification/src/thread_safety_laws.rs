//! What holds of thread-safety checks over the life of a registry: identities
//! are told apart, later registrations change no earlier verdict, and an error
//! says through which constraints it was reached.

use vstd::prelude::*;

use crate::table::value_of;
use crate::text::decimal_text;
use crate::thread_safety::{
    captures_from, constrained, display_names_select_no_policy, elements_from,
    entering_a_definition_leaves_fewer, enum_verdict, fields_from, identities_are_told_apart,
    is_safe, issued_identities_name_their_place, layout_rule, layout_verdict,
    monomorphic_fields_from, monomorphic_variants_from, nominal_verdict, obligations_from,
    plain_elements_from, plain_leaf_problem, plain_verdict, rejection, root_verdict, space_drawn,
    struct_verdict, unvisited, variants_from, verdict, ApplicationPolicyView,
    ApplicationRuleView, CanonicalConstructorId, CanonicalNominalId, CaptureProvenanceView,
    ConstraintView, DefinitionsView, NominalPolicyView, ObligationView, RegistryView,
    SendProvenanceView, ThreadSafetyRequirement, ThreadSafetyTypeView, Verdict,
};
use crate::types::{EnumVariant, Type, TypeView};

verus! {

/// Whether every identity in a type that is of the registry's space was issued
/// already: a constructor by the registry, a nominal type among the first
/// `bound`. Types can be made of nothing else, since an identity comes from its
/// registration only.
pub open spec fn built_from(reg: RegistryView, bound: nat, ty: ThreadSafetyTypeView) -> bool
    decreases ty,
{
    match ty {
        ThreadSafetyTypeView::Plain(_) => true,
        ThreadSafetyTypeView::Own(inner) => built_from(reg, bound, *inner),
        ThreadSafetyTypeView::Array { element, .. } => built_from(reg, bound, *element),
        ThreadSafetyTypeView::Tuple(elements) => all_built_from(reg, bound, elements),
        ThreadSafetyTypeView::Application { constructor, args } => {
            &&& constructor.space() == reg.space ==> constructor.position()
                < reg.constructors.len()
            &&& all_built_from(reg, bound, args)
        },
        ThreadSafetyTypeView::Nominal(identity) => identity.space() == reg.space
            ==> identity.position() < bound,
        ThreadSafetyTypeView::Callable { provenance, .. } => match provenance {
            SendProvenanceView::OwnedClosure { captures, .. } => captures_built_from(
                reg,
                bound,
                captures,
            ),
            _ => true,
        },
    }
}

pub open spec fn all_built_from(
    reg: RegistryView,
    bound: nat,
    types: Seq<ThreadSafetyTypeView>,
) -> bool
    decreases types,
{
    forall|i: int| 0 <= i < types.len() ==> built_from(reg, bound, #[trigger] types[i])
}

pub open spec fn captures_built_from(
    reg: RegistryView,
    bound: nat,
    captures: Seq<CaptureProvenanceView>,
) -> bool
    decreases captures,
{
    forall|i: int| 0 <= i < captures.len() ==> built_from(reg, bound, (#[trigger] captures[i]).ty)
}

pub open spec fn policy_built_from(
    reg: RegistryView,
    bound: nat,
    policy: NominalPolicyView,
) -> bool {
    match policy {
        NominalPolicyView::MonomorphicStruct { fields } => forall|i: int|
            0 <= i < fields.len() ==> built_from(reg, bound, (#[trigger] fields[i]).1),
        NominalPolicyView::MonomorphicEnum { variants } => forall|i: int|
            0 <= i < variants.len() ==> ((#[trigger] variants[i]).1 matches Some(payload)
                ==> built_from(reg, bound, payload)),
        _ => true,
    }
}

impl RegistryView {
    /// Whether each nominal type is made of what was registered before it.
    pub open spec fn is_closed(self) -> bool {
        forall|i: int|
            0 <= i < self.nominals.len() ==> policy_built_from(
                self,
                i as nat,
                (#[trigger] self.nominals[i]).1,
            )
    }

    /// This registry with one more constructor.
    pub open spec fn with_constructor(
        self,
        name: Seq<char>,
        policy: ApplicationPolicyView,
    ) -> RegistryView {
        RegistryView { constructors: self.constructors.push((name, policy)), ..self }
    }

    /// This registry with one more nominal type.
    pub open spec fn with_nominal(
        self,
        name: Seq<char>,
        policy: NominalPolicyView,
    ) -> RegistryView {
        RegistryView { nominals: self.nominals.push((name, policy)), ..self }
    }

    /// Whether every check of a type that this registry's identities can write
    /// gives the same result in `later`.
    pub open spec fn verdicts_are_kept_by(self, later: RegistryView) -> bool {
        forall|ty: ThreadSafetyTypeView, requirement: ThreadSafetyRequirement, root: Seq<char>|
            built_from(self, self.nominals.len(), ty) ==> #[trigger] root_verdict(
                later,
                ty,
                requirement,
                root,
            ) == root_verdict(self, ty, requirement, root)
    }

    /// Whether `later` is this registry after some more registrations.
    pub open spec fn is_extended_by(self, later: RegistryView) -> bool {
        &&& later.defs == self.defs
        &&& later.space == self.space
        &&& self.constructors.is_prefix_of(later.constructors)
        &&& self.nominals.is_prefix_of(later.nominals)
    }
}

pub(crate) proof fn verdicts_stay(
    reg: RegistryView,
    later: RegistryView,
    bound: nat,
    wider: nat,
    ty: ThreadSafetyTypeView,
    requirement: ThreadSafetyRequirement,
    path: Seq<char>,
    trace: Seq<ConstraintView>,
)
    requires
        reg.is_extended_by(later),
        reg.is_closed(),
        bound <= wider,
        bound <= reg.nominals.len(),
        built_from(reg, bound, ty),
    ensures
        verdict(later, wider, ty, requirement, path, trace) == verdict(
            reg,
            bound,
            ty,
            requirement,
            path,
            trace,
        ),
    decreases bound, 1nat, ty, 0nat,
{
    match ty {
        ThreadSafetyTypeView::Plain(_) => {},
        ThreadSafetyTypeView::Own(inner) => {
            verdicts_stay(reg, later, bound, wider, *inner, requirement, path, trace);
        },
        ThreadSafetyTypeView::Array { element, .. } => {
            let inside = path + "[]"@;
            verdicts_stay(reg, later, bound, wider, *element, requirement, inside, trace);
        },
        ThreadSafetyTypeView::Tuple(elements) => {
            elements_stay(reg, later, bound, wider, elements, 0, requirement, path, trace);
        },
        ThreadSafetyTypeView::Application { constructor, args } => {
            assert(later.constructor(constructor) == reg.constructor(constructor));
            match reg.constructor(constructor) {
                Some((name, policy)) => match policy.rule(name, requirement) {
                    ApplicationRuleView::Requires(obligations) => {
                        obligations_stay(
                            reg,
                            later,
                            bound,
                            wider,
                            args,
                            obligations,
                            0,
                            path,
                            trace,
                        );
                    },
                    _ => {},
                },
                None => {},
            }
        },
        ThreadSafetyTypeView::Nominal(identity) => {
            assert(later.nominal(identity, wider) == reg.nominal(identity, bound));
            reveal_with_fuel(verdict, 2);
            match reg.nominal(identity, bound) {
                Some((name, policy)) => {
                    layout_stays(
                        reg,
                        later,
                        identity.position() as nat,
                        policy,
                        requirement,
                        path,
                        constrained(trace, path, requirement, layout_rule(name, policy)),
                    );
                },
                None => {},
            }
            assert(nominal_verdict(later, wider, identity, requirement, path, trace)
                == nominal_verdict(reg, bound, identity, requirement, path, trace));
        },
        ThreadSafetyTypeView::Callable { provenance, .. } => {
            match provenance {
                SendProvenanceView::OwnedClosure { origin, captures } => {
                    captures_stay(reg, later, bound, wider, origin, captures, 0, path, trace);
                },
                _ => {},
            }
        },
    }
}

proof fn elements_stay(
    reg: RegistryView,
    later: RegistryView,
    bound: nat,
    wider: nat,
    elements: Seq<ThreadSafetyTypeView>,
    i: nat,
    requirement: ThreadSafetyRequirement,
    path: Seq<char>,
    trace: Seq<ConstraintView>,
)
    requires
        reg.is_extended_by(later),
        reg.is_closed(),
        bound <= wider,
        bound <= reg.nominals.len(),
        all_built_from(reg, bound, elements),
    ensures
        elements_from(later, wider, elements, i, requirement, path, trace) == elements_from(
            reg,
            bound,
            elements,
            i,
            requirement,
            path,
            trace,
        ),
    decreases bound, 1nat, elements, elements.len() - i,
{
    if i < elements.len() {
        let inside = path + "["@ + decimal_text(i) + "]"@;
        verdicts_stay(
            reg,
            later,
            bound,
            wider,
            elements[i as int],
            requirement,
            inside,
            trace,
        );
        elements_stay(reg, later, bound, wider, elements, i + 1, requirement, path, trace);
    }
}

proof fn obligations_stay(
    reg: RegistryView,
    later: RegistryView,
    bound: nat,
    wider: nat,
    args: Seq<ThreadSafetyTypeView>,
    obligations: Seq<ObligationView>,
    i: int,
    path: Seq<char>,
    trace: Seq<ConstraintView>,
)
    requires
        reg.is_extended_by(later),
        reg.is_closed(),
        bound <= wider,
        bound <= reg.nominals.len(),
        all_built_from(reg, bound, args),
    ensures
        obligations_from(later, wider, args, obligations, i, path, trace) == obligations_from(
            reg,
            bound,
            args,
            obligations,
            i,
            path,
            trace,
        ),
    decreases bound, 1nat, args, obligations.len() - i,
{
    if 0 <= i < obligations.len() && 0 <= obligations[i].index < args.len() {
        let asked = obligations[i];
        let inside = path + asked.suffix;
        verdicts_stay(
            reg,
            later,
            bound,
            wider,
            args[asked.index],
            asked.requirement,
            inside,
            constrained(trace, inside, asked.requirement, asked.rule),
        );
        obligations_stay(reg, later, bound, wider, args, obligations, i + 1, path, trace);
    }
}

proof fn captures_stay(
    reg: RegistryView,
    later: RegistryView,
    bound: nat,
    wider: nat,
    origin: Seq<char>,
    captures: Seq<CaptureProvenanceView>,
    i: int,
    path: Seq<char>,
    trace: Seq<ConstraintView>,
)
    requires
        reg.is_extended_by(later),
        reg.is_closed(),
        bound <= wider,
        bound <= reg.nominals.len(),
        captures_built_from(reg, bound, captures),
    ensures
        captures_from(later, wider, origin, captures, i, path, trace) == captures_from(
            reg,
            bound,
            origin,
            captures,
            i,
            path,
            trace,
        ),
    decreases bound, 1nat, captures, captures.len() - i,
{
    if 0 <= i < captures.len() {
        let inside = path + ".capture `"@ + captures[i].name + "`"@;
        let rule = "owned closure `"@ + origin + "` requires every capture to be Send"@;
        verdicts_stay(
            reg,
            later,
            bound,
            wider,
            captures[i].ty,
            ThreadSafetyRequirement::Send,
            inside,
            constrained(trace, inside, ThreadSafetyRequirement::Send, rule),
        );
        captures_stay(reg, later, bound, wider, origin, captures, i + 1, path, trace);
    }
}

proof fn layout_stays(
    reg: RegistryView,
    later: RegistryView,
    bound: nat,
    policy: NominalPolicyView,
    requirement: ThreadSafetyRequirement,
    path: Seq<char>,
    trace: Seq<ConstraintView>,
)
    requires
        reg.is_extended_by(later),
        reg.is_closed(),
        bound <= reg.nominals.len(),
        policy_built_from(reg, bound, policy),
    ensures
        layout_verdict(later, bound, policy, requirement, path, trace) == layout_verdict(
            reg,
            bound,
            policy,
            requirement,
            path,
            trace,
        ),
    decreases bound, 3nat, policy, 0nat,
{
    match policy {
        NominalPolicyView::MonomorphicStruct { fields } => {
            monomorphic_fields_stay(reg, later, bound, fields, 0, requirement, path, trace);
        },
        NominalPolicyView::MonomorphicEnum { variants } => {
            monomorphic_variants_stay(reg, later, bound, variants, 0, requirement, path, trace);
        },
        _ => {},
    }
}

proof fn monomorphic_fields_stay(
    reg: RegistryView,
    later: RegistryView,
    bound: nat,
    fields: Seq<(Seq<char>, ThreadSafetyTypeView)>,
    i: int,
    requirement: ThreadSafetyRequirement,
    path: Seq<char>,
    trace: Seq<ConstraintView>,
)
    requires
        reg.is_extended_by(later),
        reg.is_closed(),
        bound <= reg.nominals.len(),
        forall|k: int|
            0 <= k < fields.len() ==> built_from(reg, bound, (#[trigger] fields[k]).1),
    ensures
        monomorphic_fields_from(later, bound, fields, i, requirement, path, trace)
            == monomorphic_fields_from(reg, bound, fields, i, requirement, path, trace),
    decreases bound, 2nat, fields, fields.len() - i,
{
    if 0 <= i < fields.len() {
        let inside = path + "."@ + fields[i].0;
        verdicts_stay(reg, later, bound, bound, fields[i].1, requirement, inside, trace);
        monomorphic_fields_stay(reg, later, bound, fields, i + 1, requirement, path, trace);
    }
}

proof fn monomorphic_variants_stay(
    reg: RegistryView,
    later: RegistryView,
    bound: nat,
    variants: Seq<(Seq<char>, Option<ThreadSafetyTypeView>)>,
    i: int,
    requirement: ThreadSafetyRequirement,
    path: Seq<char>,
    trace: Seq<ConstraintView>,
)
    requires
        reg.is_extended_by(later),
        reg.is_closed(),
        bound <= reg.nominals.len(),
        forall|k: int|
            0 <= k < variants.len() ==> ((#[trigger] variants[k]).1 matches Some(payload)
                ==> built_from(reg, bound, payload)),
    ensures
        monomorphic_variants_from(later, bound, variants, i, requirement, path, trace)
            == monomorphic_variants_from(reg, bound, variants, i, requirement, path, trace),
    decreases bound, 2nat, variants, variants.len() - i,
{
    if 0 <= i < variants.len() {
        match variants[i].1 {
            Some(payload) => {
                let inside = path + "::"@ + variants[i].0;
                verdicts_stay(reg, later, bound, bound, payload, requirement, inside, trace);
            },
            None => {},
        }
        monomorphic_variants_stay(reg, later, bound, variants, i + 1, requirement, path, trace);
    }
}

/// Registering more changes no verdict on a type that could be written before:
/// the same check gives the same result, error and all.
pub proof fn later_registrations_keep_verdicts(
    reg: RegistryView,
    later: RegistryView,
    ty: ThreadSafetyTypeView,
    requirement: ThreadSafetyRequirement,
    root: Seq<char>,
)
    requires
        reg.is_closed(),
        reg.is_extended_by(later),
        built_from(reg, reg.nominals.len(), ty),
    ensures
        root_verdict(later, ty, requirement, root) == root_verdict(reg, ty, requirement, root),
{
    verdicts_stay(
        reg,
        later,
        reg.nominals.len(),
        later.nominals.len(),
        ty,
        requirement,
        root,
        Seq::empty(),
    );
}

proof fn built_types_stay_built(
    reg: RegistryView,
    later: RegistryView,
    bound: nat,
    ty: ThreadSafetyTypeView,
)
    requires
        reg.is_extended_by(later),
        built_from(reg, bound, ty),
    ensures
        built_from(later, bound, ty),
    decreases ty,
{
    match ty {
        ThreadSafetyTypeView::Own(inner) => {
            built_types_stay_built(reg, later, bound, *inner);
        },
        ThreadSafetyTypeView::Array { element, .. } => {
            built_types_stay_built(reg, later, bound, *element);
        },
        ThreadSafetyTypeView::Tuple(elements) => {
            built_lists_stay_built(reg, later, bound, elements);
        },
        ThreadSafetyTypeView::Application { args, .. } => {
            built_lists_stay_built(reg, later, bound, args);
        },
        ThreadSafetyTypeView::Callable { provenance, .. } => match provenance {
            SendProvenanceView::OwnedClosure { captures, .. } => {
                built_captures_stay_built(reg, later, bound, captures);
            },
            _ => {},
        },
        _ => {},
    }
}

proof fn built_lists_stay_built(
    reg: RegistryView,
    later: RegistryView,
    bound: nat,
    types: Seq<ThreadSafetyTypeView>,
)
    requires
        reg.is_extended_by(later),
        all_built_from(reg, bound, types),
    ensures
        all_built_from(later, bound, types),
    decreases types,
{
    assert forall|i: int| 0 <= i < types.len() implies built_from(
        later,
        bound,
        #[trigger] types[i],
    ) by {
        built_types_stay_built(reg, later, bound, types[i]);
    }
}

proof fn built_captures_stay_built(
    reg: RegistryView,
    later: RegistryView,
    bound: nat,
    captures: Seq<CaptureProvenanceView>,
)
    requires
        reg.is_extended_by(later),
        captures_built_from(reg, bound, captures),
    ensures
        captures_built_from(later, bound, captures),
    decreases captures,
{
    assert forall|i: int| 0 <= i < captures.len() implies built_from(
        later,
        bound,
        (#[trigger] captures[i]).ty,
    ) by {
        built_types_stay_built(reg, later, bound, captures[i].ty);
    }
}

proof fn built_policies_stay_built(
    reg: RegistryView,
    later: RegistryView,
    bound: nat,
    policy: NominalPolicyView,
)
    requires
        reg.is_extended_by(later),
        policy_built_from(reg, bound, policy),
    ensures
        policy_built_from(later, bound, policy),
{
    match policy {
        NominalPolicyView::MonomorphicStruct { fields } => {
            assert forall|i: int| 0 <= i < fields.len() implies built_from(
                later,
                bound,
                (#[trigger] fields[i]).1,
            ) by {
                built_types_stay_built(reg, later, bound, fields[i].1);
            }
        },
        NominalPolicyView::MonomorphicEnum { variants } => {
            assert forall|i: int| 0 <= i < variants.len() implies ((
            #[trigger] variants[i]).1 matches Some(payload) ==> built_from(
                later,
                bound,
                payload,
            )) by {
                match variants[i].1 {
                    Some(payload) => built_types_stay_built(reg, later, bound, payload),
                    None => {},
                }
            }
        },
        _ => {},
    }
}

/// A registry stays closed under registrations: it starts with nothing, a
/// constructor refers to no type, and a nominal type can only be made of what
/// has an identity already.
pub proof fn registrations_keep_a_registry_closed(
    reg: RegistryView,
    name: Seq<char>,
    application: ApplicationPolicyView,
    nominal: NominalPolicyView,
)
    requires
        reg.is_closed(),
        policy_built_from(reg, reg.nominals.len(), nominal),
    ensures
        reg.is_extended_by(reg.with_constructor(name, application)),
        reg.with_constructor(name, application).is_closed(),
        reg.is_extended_by(reg.with_nominal(name, nominal)),
        reg.with_nominal(name, nominal).is_closed(),
        (RegistryView { constructors: Seq::empty(), nominals: Seq::empty(), ..reg }).is_closed(),
{
    let first = reg.with_constructor(name, application);
    assert(reg.is_extended_by(first));
    assert forall|i: int| 0 <= i < first.nominals.len() implies policy_built_from(
        first,
        i as nat,
        (#[trigger] first.nominals[i]).1,
    ) by {
        built_policies_stay_built(reg, first, i as nat, reg.nominals[i].1);
    }
    let second = reg.with_nominal(name, nominal);
    assert(reg.is_extended_by(second));
    assert forall|i: int| 0 <= i < second.nominals.len() implies policy_built_from(
        second,
        i as nat,
        (#[trigger] second.nominals[i]).1,
    ) by {
        if i < reg.nominals.len() {
            built_policies_stay_built(reg, second, i as nat, reg.nominals[i].1);
        } else {
            built_policies_stay_built(reg, second, i as nat, nominal);
        }
    }
}

/// All verdicts of a registry are kept by one that extends it.
pub proof fn extensions_keep_all_verdicts(reg: RegistryView, later: RegistryView)
    requires
        reg.is_closed(),
        reg.is_extended_by(later),
    ensures
        reg.verdicts_are_kept_by(later),
{
    assert forall|
        ty: ThreadSafetyTypeView,
        requirement: ThreadSafetyRequirement,
        root: Seq<char>,
    | built_from(reg, reg.nominals.len(), ty) implies #[trigger] root_verdict(
        later,
        ty,
        requirement,
        root,
    ) == root_verdict(reg, ty, requirement, root) by {
        later_registrations_keep_verdicts(reg, later, ty, requirement, root);
    }
}

/// Registering a constructor gives it an identity that no registry of the same
/// source of spaces has issued or will issue for another one, changes no verdict
/// on a type of earlier identities, and makes the policy available under that
/// identity, whatever display name comes with it.
pub proof fn a_registered_constructor_is_new(
    first: u64,
    draws: nat,
    reg: RegistryView,
    name: Seq<char>,
    policy: ApplicationPolicyView,
)
    requires
        draws <= u64::MAX,
        reg.space == space_drawn(first, draws),
        reg.constructors.len() <= u32::MAX,
        reg.is_closed(),
    ensures
        ({
            let position = reg.constructors.len() as int;
            let id = CanonicalConstructorId::issued(reg.space, position);
            let more = reg.with_constructor(name, policy);
            &&& forall|other_draws: nat, other_position: int|
                other_draws <= u64::MAX && 0 <= other_position <= u32::MAX && (other_draws != draws
                    || other_position != position) ==> id
                    != #[trigger] CanonicalConstructorId::issued(
                    space_drawn(first, other_draws),
                    other_position,
                )
            &&& reg.verdicts_are_kept_by(more)
            &&& more.is_closed()
            &&& more.constructor(id) == Some((name, policy))
            &&& forall|
                alias: Seq<char>,
                ty: ThreadSafetyTypeView,
                requirement: ThreadSafetyRequirement,
            |
                #[trigger] is_safe(reg.with_constructor(alias, policy), ty, requirement)
                    == is_safe(more, ty, requirement)
        }),
{
    let position = reg.constructors.len() as int;
    let id = CanonicalConstructorId::issued(reg.space, position);
    let more = reg.with_constructor(name, policy);
    assert forall|other_draws: nat, other_position: int|
        other_draws <= u64::MAX && 0 <= other_position <= u32::MAX && (other_draws != draws
            || other_position != position) implies id
        != #[trigger] CanonicalConstructorId::issued(
        space_drawn(first, other_draws),
        other_position,
    ) by {
        if draws <= other_draws {
            identities_are_told_apart(first, draws, position, other_draws, other_position);
        } else {
            identities_are_told_apart(first, other_draws, other_position, draws, position);
        }
    }
    let unused = NominalPolicyView::Deny { reason: Seq::empty() };
    registrations_keep_a_registry_closed(reg, name, policy, unused);
    extensions_keep_all_verdicts(reg, more);
    issued_identities_name_their_place(reg.space, position);
    assert forall|
        alias: Seq<char>,
        ty: ThreadSafetyTypeView,
        requirement: ThreadSafetyRequirement,
    |
        #[trigger] is_safe(reg.with_constructor(alias, policy), ty, requirement) == is_safe(
            more,
            ty,
            requirement,
        ) by {
        display_names_select_no_policy(
            reg.with_constructor(alias, policy),
            more,
            ty,
            requirement,
        );
    }
}

/// The same of a nominal type whose policy is made of earlier identities.
pub proof fn a_registered_nominal_type_is_new(
    first: u64,
    draws: nat,
    reg: RegistryView,
    name: Seq<char>,
    policy: NominalPolicyView,
)
    requires
        draws <= u64::MAX,
        reg.space == space_drawn(first, draws),
        reg.nominals.len() <= u32::MAX,
        reg.is_closed(),
        policy_built_from(reg, reg.nominals.len(), policy),
    ensures
        ({
            let position = reg.nominals.len() as int;
            let id = CanonicalNominalId::issued(reg.space, position);
            let more = reg.with_nominal(name, policy);
            &&& forall|other_draws: nat, other_position: int|
                other_draws <= u64::MAX && 0 <= other_position <= u32::MAX && (other_draws != draws
                    || other_position != position) ==> id
                    != #[trigger] CanonicalNominalId::issued(
                    space_drawn(first, other_draws),
                    other_position,
                )
            &&& reg.verdicts_are_kept_by(more)
            &&& more.is_closed()
            &&& more.nominal(id, more.nominals.len()) == Some((name, policy))
            &&& forall|
                alias: Seq<char>,
                ty: ThreadSafetyTypeView,
                requirement: ThreadSafetyRequirement,
            |
                #[trigger] is_safe(reg.with_nominal(alias, policy), ty, requirement) == is_safe(
                    more,
                    ty,
                    requirement,
                )
        }),
{
    let position = reg.nominals.len() as int;
    let id = CanonicalNominalId::issued(reg.space, position);
    let more = reg.with_nominal(name, policy);
    assert forall|other_draws: nat, other_position: int|
        other_draws <= u64::MAX && 0 <= other_position <= u32::MAX && (other_draws != draws
            || other_position != position) implies id != #[trigger] CanonicalNominalId::issued(
        space_drawn(first, other_draws),
        other_position,
    ) by {
        if draws <= other_draws {
            identities_are_told_apart(first, draws, position, other_draws, other_position);
        } else {
            identities_are_told_apart(first, other_draws, other_position, draws, position);
        }
    }
    registrations_keep_a_registry_closed(reg, name, ApplicationPolicyView::Vec, policy);
    extensions_keep_all_verdicts(reg, more);
    issued_identities_name_their_place(reg.space, position);
    assert forall|
        alias: Seq<char>,
        ty: ThreadSafetyTypeView,
        requirement: ThreadSafetyRequirement,
    |
        #[trigger] is_safe(reg.with_nominal(alias, policy), ty, requirement) == is_safe(
            more,
            ty,
            requirement,
        ) by {
        display_names_select_no_policy(reg.with_nominal(alias, policy), more, ty, requirement);
    }
}

/// Whether the constraints of a trace stand from the outermost to the innermost,
/// and all of them above `path`.
pub open spec fn is_nested(trace: Seq<ConstraintView>, path: Seq<char>) -> bool {
    &&& forall|i: int|
        0 <= i < trace.len() ==> (#[trigger] trace[i]).path.is_prefix_of(path)
    &&& forall|i: int, j: int|
        0 <= i < j < trace.len() ==> (#[trigger] trace[i]).path.is_prefix_of(
            (#[trigger] trace[j]).path,
        )
}

/// The requirement that a trace selects: that of its innermost constraint, or the
/// one that was asked of the whole value.
pub open spec fn selected(
    asked: ThreadSafetyRequirement,
    trace: Seq<ConstraintView>,
) -> ThreadSafetyRequirement {
    if trace.len() > 0 {
        trace.last().requirement
    } else {
        asked
    }
}

/// Whether a check for a requirement at `path` is what a trace leads to.
pub open spec fn leads_to(
    trace: Seq<ConstraintView>,
    requirement: ThreadSafetyRequirement,
    path: Seq<char>,
) -> bool {
    is_nested(trace, path) && selected(requirement, trace) == requirement
}

/// Whether an error continues the given trace, lies below the given path, and
/// names the requirement that its own trace selects.
pub open spec fn explains(
    result: Verdict,
    asked: ThreadSafetyRequirement,
    path: Seq<char>,
    trace: Seq<ConstraintView>,
) -> bool {
    result matches Err(error) ==> {
        &&& error.requirement == selected(asked, error.constraint_trace)
        &&& path.is_prefix_of(error.path)
        &&& trace.is_prefix_of(error.constraint_trace)
        &&& is_nested(error.constraint_trace, error.path)
    }
}

proof fn prefixes_carry_over(first: Seq<char>, second: Seq<char>, third: Seq<char>)
    requires
        first.is_prefix_of(second),
        second.is_prefix_of(third),
    ensures
        first.is_prefix_of(third),
{
    assert forall|i: int| 0 <= i < first.len() implies first[i] == third[i] by {
        assert(first[i] == second.subrange(0, first.len() as int)[i]);
        assert(second[i] == third.subrange(0, second.len() as int)[i]);
    }
    assert(first =~= third.subrange(0, first.len() as int));
}

/// A part lies below its whole, under the same constraints.
proof fn parts_lie_below(path: Seq<char>, suffix: Seq<char>, trace: Seq<ConstraintView>)
    requires
        is_nested(trace, path),
    ensures
        path.is_prefix_of(path + suffix),
        is_nested(trace, path + suffix),
{
    let inside = path + suffix;
    assert(path =~= inside.subrange(0, path.len() as int));
    assert forall|i: int| 0 <= i < trace.len() implies (#[trigger] trace[i]).path.is_prefix_of(
        inside,
    ) by {
        prefixes_carry_over(trace[i].path, path, inside);
    }
}

/// One more constraint at `path` comes last.
proof fn constraints_nest(
    trace: Seq<ConstraintView>,
    path: Seq<char>,
    requirement: ThreadSafetyRequirement,
    rule: Seq<char>,
)
    requires
        is_nested(trace, path),
    ensures
        is_nested(constrained(trace, path, requirement, rule), path),
        trace.is_prefix_of(constrained(trace, path, requirement, rule)),
{
    let more = constrained(trace, path, requirement, rule);
    assert(path =~= path.subrange(0, path.len() as int));
    assert(trace =~= more.subrange(0, trace.len() as int));
}

/// What explains a part explains the whole.
proof fn explanations_carry_over(
    result: Verdict,
    asked: ThreadSafetyRequirement,
    path: Seq<char>,
    trace: Seq<ConstraintView>,
    part: ThreadSafetyRequirement,
    inside: Seq<char>,
    below: Seq<ConstraintView>,
)
    requires
        explains(result, part, inside, below),
        below.len() == 0 ==> part == asked,
        path.is_prefix_of(inside),
        trace.is_prefix_of(below),
    ensures
        explains(result, asked, path, trace),
{
    match result {
        Err(error) => {
            prefixes_carry_over(path, inside, error.path);
            assert forall|i: int| 0 <= i < trace.len() implies trace[i]
                == error.constraint_trace[i] by {
                assert(trace[i] == below.subrange(0, trace.len() as int)[i]);
                assert(below[i] == error.constraint_trace.subrange(0, below.len() as int)[i]);
            }
            assert(trace =~= error.constraint_trace.subrange(0, trace.len() as int));
        },
        Ok(()) => {},
    }
}

proof fn rejections_explain(
    requirement: ThreadSafetyRequirement,
    path: Seq<char>,
    reason: Seq<char>,
    trace: Seq<ConstraintView>,
)
    requires
        leads_to(trace, requirement, path),
    ensures
        explains(rejection(requirement, path, reason, trace), requirement, path, trace),
{
    assert(path =~= path.subrange(0, path.len() as int));
    assert(trace =~= trace.subrange(0, trace.len() as int));
}

proof fn plain_verdicts_explain(
    defs: DefinitionsView,
    ty: TypeView,
    requirement: ThreadSafetyRequirement,
    path: Seq<char>,
    visiting: Seq<(bool, Seq<char>)>,
    trace: Seq<ConstraintView>,
)
    requires
        leads_to(trace, requirement, path),
    ensures
        explains(
            plain_verdict(defs, ty, requirement, path, visiting, trace),
            requirement,
            path,
            trace,
        ),
    decreases unvisited(defs, visiting), 1nat, ty, 0nat,
{
    match ty {
        TypeView::Own(inner) => {
            plain_verdicts_explain(defs, *inner, requirement, path, visiting, trace);
        },
        TypeView::Array(inner, _) => {
            let inside = path + "[]"@;
            parts_lie_below(path, "[]"@, trace);
            plain_verdicts_explain(defs, *inner, requirement, inside, visiting, trace);
            let result = plain_verdict(defs, *inner, requirement, inside, visiting, trace);
            rejections_explain(requirement, path, Seq::empty(), trace);
            explanations_carry_over(
                result,
                requirement,
                path,
                trace,
                requirement,
                inside,
                trace,
            );
        },
        TypeView::Tuple(elements) => {
            plain_elements_explain(defs, elements, 0, requirement, path, visiting, trace);
        },
        TypeView::Named(name) => {
            struct_verdicts_explain(defs, name, requirement, path, visiting, trace);
        },
        TypeView::Enum(name) => {
            enum_verdicts_explain(defs, name, requirement, path, visiting, trace);
        },
        _ => {
            match plain_leaf_problem(ty) {
                Some(reason) => rejections_explain(requirement, path, reason, trace),
                None => {},
            }
        },
    }
}

proof fn plain_elements_explain(
    defs: DefinitionsView,
    elements: Seq<TypeView>,
    i: nat,
    requirement: ThreadSafetyRequirement,
    path: Seq<char>,
    visiting: Seq<(bool, Seq<char>)>,
    trace: Seq<ConstraintView>,
)
    requires
        leads_to(trace, requirement, path),
    ensures
        explains(
            plain_elements_from(defs, elements, i, requirement, path, visiting, trace),
            requirement,
            path,
            trace,
        ),
    decreases unvisited(defs, visiting), 1nat, elements, elements.len() - i,
{
    if i < elements.len() {
        let suffix = "["@ + decimal_text(i) + "]"@;
        let inside = path + "["@ + decimal_text(i) + "]"@;
        assert(inside =~= path + suffix);
        parts_lie_below(path, suffix, trace);
        plain_verdicts_explain(defs, elements[i as int], requirement, inside, visiting, trace);
        rejections_explain(requirement, path, Seq::empty(), trace);
        explanations_carry_over(
            plain_verdict(defs, elements[i as int], requirement, inside, visiting, trace),
            requirement,
            path,
            trace,
            requirement,
            inside,
            trace,
        );
        plain_elements_explain(defs, elements, i + 1, requirement, path, visiting, trace);
    }
}

proof fn struct_verdicts_explain(
    defs: DefinitionsView,
    name: Seq<char>,
    requirement: ThreadSafetyRequirement,
    path: Seq<char>,
    visiting: Seq<(bool, Seq<char>)>,
    trace: Seq<ConstraintView>,
)
    requires
        leads_to(trace, requirement, path),
    ensures
        explains(
            struct_verdict(defs, name, requirement, path, visiting, trace),
            requirement,
            path,
            trace,
        ),
    decreases unvisited(defs, visiting), 0nat, name, 0nat,
{
    entering_a_definition_leaves_fewer(defs, visiting, (false, name));
    match value_of(defs.structs, name) {
        Some(definition) => {
            if !visiting.contains((false, name)) {
                fields_explain(
                    defs,
                    definition.fields@,
                    0,
                    requirement,
                    path,
                    visiting.push((false, name)),
                    trace,
                );
            }
        },
        None => {
            let reason = "type `"@ + name + "` has no structural thread-safety definition"@;
            rejections_explain(requirement, path, reason, trace);
        },
    }
}

proof fn fields_explain(
    defs: DefinitionsView,
    fields: Seq<(String, Type)>,
    i: int,
    requirement: ThreadSafetyRequirement,
    path: Seq<char>,
    visiting: Seq<(bool, Seq<char>)>,
    trace: Seq<ConstraintView>,
)
    requires
        leads_to(trace, requirement, path),
    ensures
        explains(
            fields_from(defs, fields, i, requirement, path, visiting, trace),
            requirement,
            path,
            trace,
        ),
    decreases unvisited(defs, visiting), 2nat, fields, fields.len() - i,
{
    if 0 <= i < fields.len() {
        let suffix = "."@ + fields[i].0@;
        let inside = path + "."@ + fields[i].0@;
        assert(inside =~= path + suffix);
        parts_lie_below(path, suffix, trace);
        plain_verdicts_explain(defs, fields[i].1@, requirement, inside, visiting, trace);
        rejections_explain(requirement, path, Seq::empty(), trace);
        explanations_carry_over(
            plain_verdict(defs, fields[i].1@, requirement, inside, visiting, trace),
            requirement,
            path,
            trace,
            requirement,
            inside,
            trace,
        );
        fields_explain(defs, fields, i + 1, requirement, path, visiting, trace);
    }
}

proof fn enum_verdicts_explain(
    defs: DefinitionsView,
    name: Seq<char>,
    requirement: ThreadSafetyRequirement,
    path: Seq<char>,
    visiting: Seq<(bool, Seq<char>)>,
    trace: Seq<ConstraintView>,
)
    requires
        leads_to(trace, requirement, path),
    ensures
        explains(
            enum_verdict(defs, name, requirement, path, visiting, trace),
            requirement,
            path,
            trace,
        ),
    decreases unvisited(defs, visiting), 0nat, name, 0nat,
{
    entering_a_definition_leaves_fewer(defs, visiting, (true, name));
    match value_of(defs.enums, name) {
        Some(definition) => {
            if !visiting.contains((true, name)) {
                variants_explain(
                    defs,
                    definition.variants@,
                    0,
                    requirement,
                    path,
                    visiting.push((true, name)),
                    trace,
                );
            }
        },
        None => {
            let reason = "enum `"@ + name + "` has no structural thread-safety definition"@;
            rejections_explain(requirement, path, reason, trace);
        },
    }
}

proof fn variants_explain(
    defs: DefinitionsView,
    variants: Seq<EnumVariant>,
    i: int,
    requirement: ThreadSafetyRequirement,
    path: Seq<char>,
    visiting: Seq<(bool, Seq<char>)>,
    trace: Seq<ConstraintView>,
)
    requires
        leads_to(trace, requirement, path),
    ensures
        explains(
            variants_from(defs, variants, i, requirement, path, visiting, trace),
            requirement,
            path,
            trace,
        ),
    decreases unvisited(defs, visiting), 2nat, variants, variants.len() - i,
{
    if 0 <= i < variants.len() {
        match variants[i].payload {
            Some(payload) => {
                let suffix = "::"@ + variants[i].name@;
                let inside = path + "::"@ + variants[i].name@;
                assert(inside =~= path + suffix);
                parts_lie_below(path, suffix, trace);
                plain_verdicts_explain(defs, payload@, requirement, inside, visiting, trace);
                rejections_explain(requirement, path, Seq::empty(), trace);
                explanations_carry_over(
                    plain_verdict(defs, payload@, requirement, inside, visiting, trace),
                    requirement,
                    path,
                    trace,
                    requirement,
                    inside,
                    trace,
                );
            },
            None => {},
        }
        variants_explain(defs, variants, i + 1, requirement, path, visiting, trace);
    }
}

/// An error continues the trace of its check from the outside in, and its path
/// lies below all constraints.
proof fn verdicts_explain(
    reg: RegistryView,
    bound: nat,
    ty: ThreadSafetyTypeView,
    requirement: ThreadSafetyRequirement,
    path: Seq<char>,
    trace: Seq<ConstraintView>,
)
    requires
        leads_to(trace, requirement, path),
    ensures
        explains(verdict(reg, bound, ty, requirement, path, trace), requirement, path, trace),
    decreases bound, 1nat, ty, 0nat,
{
    rejections_explain(requirement, path, Seq::empty(), trace);
    match ty {
        ThreadSafetyTypeView::Plain(ty) => {
            plain_verdicts_explain(reg.defs, ty, requirement, path, Seq::empty(), trace);
        },
        ThreadSafetyTypeView::Own(inner) => {
            verdicts_explain(reg, bound, *inner, requirement, path, trace);
        },
        ThreadSafetyTypeView::Array { element, .. } => {
            let inside = path + "[]"@;
            parts_lie_below(path, "[]"@, trace);
            verdicts_explain(reg, bound, *element, requirement, inside, trace);
            explanations_carry_over(
                verdict(reg, bound, *element, requirement, inside, trace),
                requirement,
                path,
                trace,
                requirement,
                inside,
                trace,
            );
        },
        ThreadSafetyTypeView::Tuple(elements) => {
            elements_explain(reg, bound, elements, 0, requirement, path, trace);
        },
        ThreadSafetyTypeView::Application { constructor, args } => {
            match reg.constructor(constructor) {
                Some((name, policy)) => match policy.rule(name, requirement) {
                    ApplicationRuleView::Requires(obligations) => {
                        obligations_explain(
                            reg,
                            bound,
                            args,
                            obligations,
                            0,
                            requirement,
                            path,
                            trace,
                        );
                    },
                    _ => {},
                },
                None => {},
            }
        },
        ThreadSafetyTypeView::Nominal(identity) => {
            reveal_with_fuel(verdict, 2);
            match reg.nominal(identity, bound) {
                Some((name, policy)) => {
                    let rule = layout_rule(name, policy);
                    let below = constrained(trace, path, requirement, rule);
                    let position = identity.position() as nat;
                    constraints_nest(trace, path, requirement, rule);
                    layouts_explain(reg, position, policy, requirement, path, below);
                    explanations_carry_over(
                        layout_verdict(reg, position, policy, requirement, path, below),
                        requirement,
                        path,
                        trace,
                        requirement,
                        path,
                        below,
                    );
                },
                None => {},
            }
        },
        ThreadSafetyTypeView::Callable { provenance, .. } => {
            match provenance {
                SendProvenanceView::OwnedClosure { origin, captures } => {
                    captures_explain(
                        reg,
                        bound,
                        origin,
                        captures,
                        0,
                        requirement,
                        path,
                        trace,
                    );
                },
                _ => {},
            }
        },
    }
}

proof fn elements_explain(
    reg: RegistryView,
    bound: nat,
    elements: Seq<ThreadSafetyTypeView>,
    i: nat,
    requirement: ThreadSafetyRequirement,
    path: Seq<char>,
    trace: Seq<ConstraintView>,
)
    requires
        leads_to(trace, requirement, path),
    ensures
        explains(
            elements_from(reg, bound, elements, i, requirement, path, trace),
            requirement,
            path,
            trace,
        ),
    decreases bound, 1nat, elements, elements.len() - i,
{
    if i < elements.len() {
        let suffix = "["@ + decimal_text(i) + "]"@;
        let inside = path + "["@ + decimal_text(i) + "]"@;
        assert(inside =~= path + suffix);
        parts_lie_below(path, suffix, trace);
        verdicts_explain(reg, bound, elements[i as int], requirement, inside, trace);
        rejections_explain(requirement, path, Seq::empty(), trace);
        explanations_carry_over(
            verdict(reg, bound, elements[i as int], requirement, inside, trace),
            requirement,
            path,
            trace,
            requirement,
            inside,
            trace,
        );
        elements_explain(reg, bound, elements, i + 1, requirement, path, trace);
    }
}

proof fn obligations_explain(
    reg: RegistryView,
    bound: nat,
    args: Seq<ThreadSafetyTypeView>,
    obligations: Seq<ObligationView>,
    i: int,
    requirement: ThreadSafetyRequirement,
    path: Seq<char>,
    trace: Seq<ConstraintView>,
)
    requires
        leads_to(trace, requirement, path),
    ensures
        explains(
            obligations_from(reg, bound, args, obligations, i, path, trace),
            requirement,
            path,
            trace,
        ),
        0 <= i ==> (obligations_from(
            reg,
            bound,
            args,
            obligations,
            i,
            path,
            trace,
        ) matches Err(error) ==> exists|k: int|
            i <= k < obligations.len() && imposed(
                error.constraint_trace,
                trace,
                path,
                #[trigger] obligations[k],
            )),
    decreases bound, 1nat, args, obligations.len() - i,
{
    if 0 <= i < obligations.len() && 0 <= obligations[i].index < args.len() {
        let asked = obligations[i];
        let inside = path + asked.suffix;
        let below = constrained(trace, inside, asked.requirement, asked.rule);
        let arg = args[asked.index];
        parts_lie_below(path, asked.suffix, trace);
        constraints_nest(trace, inside, asked.requirement, asked.rule);
        verdicts_explain(reg, bound, arg, asked.requirement, inside, below);
        explanations_carry_over(
            verdict(reg, bound, arg, asked.requirement, inside, below),
            requirement,
            path,
            trace,
            asked.requirement,
            inside,
            below,
        );
        match verdict(reg, bound, arg, asked.requirement, inside, below) {
            Err(error) => {
                assert(below[trace.len() as int] == error.constraint_trace.subrange(
                    0,
                    below.len() as int,
                )[trace.len() as int]);
                assert(imposed(error.constraint_trace, trace, path, obligations[i]));
            },
            Ok(()) => {
                obligations_explain(
                    reg,
                    bound,
                    args,
                    obligations,
                    i + 1,
                    requirement,
                    path,
                    trace,
                );
            },
        }
    }
}

/// Whether a trace goes on with what an obligation imposes at `path`.
pub open spec fn imposed(
    whole: Seq<ConstraintView>,
    trace: Seq<ConstraintView>,
    path: Seq<char>,
    asked: ObligationView,
) -> bool {
    &&& whole.len() > trace.len()
    &&& whole[trace.len() as int] == (ConstraintView {
        path: path + asked.suffix,
        requirement: asked.requirement,
        rule: asked.rule,
    })
}

proof fn captures_explain(
    reg: RegistryView,
    bound: nat,
    origin: Seq<char>,
    captures: Seq<CaptureProvenanceView>,
    i: int,
    requirement: ThreadSafetyRequirement,
    path: Seq<char>,
    trace: Seq<ConstraintView>,
)
    requires
        leads_to(trace, requirement, path),
    ensures
        explains(
            captures_from(reg, bound, origin, captures, i, path, trace),
            requirement,
            path,
            trace,
        ),
    decreases bound, 1nat, captures, captures.len() - i,
{
    if 0 <= i < captures.len() {
        let suffix = ".capture `"@ + captures[i].name + "`"@;
        let inside = path + ".capture `"@ + captures[i].name + "`"@;
        let rule = "owned closure `"@ + origin + "` requires every capture to be Send"@;
        let below = constrained(trace, inside, ThreadSafetyRequirement::Send, rule);
        assert(inside =~= path + suffix);
        parts_lie_below(path, suffix, trace);
        constraints_nest(trace, inside, ThreadSafetyRequirement::Send, rule);
        verdicts_explain(
            reg,
            bound,
            captures[i].ty,
            ThreadSafetyRequirement::Send,
            inside,
            below,
        );
        explanations_carry_over(
            verdict(reg, bound, captures[i].ty, ThreadSafetyRequirement::Send, inside, below),
            requirement,
            path,
            trace,
            ThreadSafetyRequirement::Send,
            inside,
            below,
        );
        captures_explain(
            reg,
            bound,
            origin,
            captures,
            i + 1,
            requirement,
            path,
            trace,
        );
    }
}

proof fn layouts_explain(
    reg: RegistryView,
    bound: nat,
    policy: NominalPolicyView,
    requirement: ThreadSafetyRequirement,
    path: Seq<char>,
    trace: Seq<ConstraintView>,
)
    requires
        leads_to(trace, requirement, path),
    ensures
        explains(
            layout_verdict(reg, bound, policy, requirement, path, trace),
            requirement,
            path,
            trace,
        ),
    decreases bound, 3nat, policy, 0nat,
{
    match policy {
        NominalPolicyView::StructuralStruct { definition } => {
            struct_verdicts_explain(
                reg.defs,
                definition,
                requirement,
                path,
                Seq::empty(),
                trace,
            );
        },
        NominalPolicyView::StructuralEnum { definition } => {
            enum_verdicts_explain(reg.defs, definition, requirement, path, Seq::empty(), trace);
        },
        NominalPolicyView::MonomorphicStruct { fields } => {
            monomorphic_fields_explain(reg, bound, fields, 0, requirement, path, trace);
        },
        NominalPolicyView::MonomorphicEnum { variants } => {
            monomorphic_variants_explain(reg, bound, variants, 0, requirement, path, trace);
        },
        _ => {},
    }
}

proof fn monomorphic_fields_explain(
    reg: RegistryView,
    bound: nat,
    fields: Seq<(Seq<char>, ThreadSafetyTypeView)>,
    i: int,
    requirement: ThreadSafetyRequirement,
    path: Seq<char>,
    trace: Seq<ConstraintView>,
)
    requires
        leads_to(trace, requirement, path),
    ensures
        explains(
            monomorphic_fields_from(reg, bound, fields, i, requirement, path, trace),
            requirement,
            path,
            trace,
        ),
    decreases bound, 2nat, fields, fields.len() - i,
{
    if 0 <= i < fields.len() {
        let suffix = "."@ + fields[i].0;
        let inside = path + "."@ + fields[i].0;
        assert(inside =~= path + suffix);
        parts_lie_below(path, suffix, trace);
        verdicts_explain(reg, bound, fields[i].1, requirement, inside, trace);
        rejections_explain(requirement, path, Seq::empty(), trace);
        explanations_carry_over(
            verdict(reg, bound, fields[i].1, requirement, inside, trace),
            requirement,
            path,
            trace,
            requirement,
            inside,
            trace,
        );
        monomorphic_fields_explain(reg, bound, fields, i + 1, requirement, path, trace);
    }
}

proof fn monomorphic_variants_explain(
    reg: RegistryView,
    bound: nat,
    variants: Seq<(Seq<char>, Option<ThreadSafetyTypeView>)>,
    i: int,
    requirement: ThreadSafetyRequirement,
    path: Seq<char>,
    trace: Seq<ConstraintView>,
)
    requires
        leads_to(trace, requirement, path),
    ensures
        explains(
            monomorphic_variants_from(reg, bound, variants, i, requirement, path, trace),
            requirement,
            path,
            trace,
        ),
    decreases bound, 2nat, variants, variants.len() - i,
{
    if 0 <= i < variants.len() {
        match variants[i].1 {
            Some(payload) => {
                let suffix = "::"@ + variants[i].0;
                let inside = path + "::"@ + variants[i].0;
                assert(inside =~= path + suffix);
                parts_lie_below(path, suffix, trace);
                verdicts_explain(reg, bound, payload, requirement, inside, trace);
                rejections_explain(requirement, path, Seq::empty(), trace);
                explanations_carry_over(
                    verdict(reg, bound, payload, requirement, inside, trace),
                    requirement,
                    path,
                    trace,
                    requirement,
                    inside,
                    trace,
                );
            },
            None => {},
        }
        monomorphic_variants_explain(reg, bound, variants, i + 1, requirement, path, trace);
    }
}

/// The error of a check lies below the root of the checked value, and its
/// constraints lead there from the outermost to the innermost: the path of each
/// one is a prefix of the next one's, and of the path of the error. The
/// requirement that failed is the one that the innermost constraint imposes, or
/// the one that the check asked for where no constraint was met on the way.
pub proof fn constraints_lead_to_the_error(
    reg: RegistryView,
    ty: ThreadSafetyTypeView,
    requirement: ThreadSafetyRequirement,
    root: Seq<char>,
)
    ensures
        explains(root_verdict(reg, ty, requirement, root), requirement, root, Seq::empty()),
{
    verdicts_explain(reg, reg.nominals.len(), ty, requirement, root, Seq::empty());
}

/// Where an application of a canonical constructor is rejected for one of its
/// arguments, the trace begins with what the constructor asks of that argument:
/// the path, the requirement and the rule of the obligation. A `Mutex` asks that
/// its value be `Send`, though it is checked for `Sync`.
pub proof fn rejected_arguments_are_traced(
    reg: RegistryView,
    constructor: CanonicalConstructorId,
    args: Seq<ThreadSafetyTypeView>,
    requirement: ThreadSafetyRequirement,
    root: Seq<char>,
)
    requires
        reg.constructor(constructor) is Some,
        args.len() == (reg.constructor(constructor)->0).1.arity(),
    ensures
        ({
            let (name, policy) = reg.constructor(constructor)->0;
            let ty = ThreadSafetyTypeView::Application { constructor, args };
            root_verdict(reg, ty, requirement, root) matches Err(error) ==> {
                &&& policy.rule(name, requirement) matches ApplicationRuleView::Requires(asked)
                    ==> exists|k: int|
                    0 <= k < asked.len() && imposed(
                        error.constraint_trace,
                        Seq::empty(),
                        root,
                        #[trigger] asked[k],
                    )
                &&& policy is Mutex ==> {
                    &&& error.constraint_trace.len() > 0
                    &&& error.constraint_trace[0].requirement == ThreadSafetyRequirement::Send
                    &&& error.constraint_trace[0].path == root + ".value"@
                    &&& (root + ".value"@).is_prefix_of(error.path)
                }
            }
        }),
{
    let (name, policy) = reg.constructor(constructor)->0;
    let ty = ThreadSafetyTypeView::Application { constructor, args };
    constraints_lead_to_the_error(reg, ty, requirement, root);
    match policy.rule(name, requirement) {
        ApplicationRuleView::Requires(asked) => {
            obligations_explain(
                reg,
                reg.nominals.len(),
                args,
                asked,
                0,
                requirement,
                root,
                Seq::empty(),
            );
        },
        _ => {},
    }
}

} // verus!
