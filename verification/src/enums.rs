//! Enum variants found by name.
//!
//! Variant order is the declaration order; a variant's index is its position in
//! the declaration.

use vstd::prelude::*;

use crate::resolver::ResolverContext;
use crate::table::value_of;
use crate::text::same_text;
use crate::types::{type_option_view, EnumType, EnumVariant, Type, TypeView};

verus! {

/// A successfully resolved enum variant: its declared index and its declared
/// payload type, if any.
#[derive(Debug)]
pub struct ResolvedVariant {
    pub variant_index: u32,
    pub payload: Option<Type>,
}

/// Why a pair of an enum name and a variant name failed to resolve.
#[derive(Debug, Clone, Copy, PartialEq, Eq, Structural)]
pub enum VariantLookupError {
    /// No enum of that name is visible in the current resolver context.
    UnknownEnum,
    /// The enum exists, but has no variant of that name.
    UnknownVariant,
}

/// The mathematical model of a [`ResolvedVariant`].
pub struct ResolvedVariantView {
    pub variant_index: u32,
    pub payload: Option<TypeView>,
}

impl View for ResolvedVariant {
    type V = ResolvedVariantView;

    open spec fn view(&self) -> ResolvedVariantView {
        ResolvedVariantView {
            variant_index: self.variant_index,
            payload: type_option_view(self.payload),
        }
    }
}

/// The position of the first variant called `name`, from position `i` on.
pub open spec fn variant_position(variants: Seq<EnumVariant>, name: Seq<char>, i: int) -> Option<int>
    decreases variants.len() - i,
{
    if i < 0 || i >= variants.len() {
        None
    } else if variants[i].name@ == name {
        Some(i)
    } else {
        variant_position(variants, name, i + 1)
    }
}

/// What the variant called `name` resolves to.
pub open spec fn variant_named(variants: Seq<EnumVariant>, name: Seq<char>) -> Option<
    ResolvedVariantView,
> {
    match variant_position(variants, name, 0) {
        Some(i) => Some(
            ResolvedVariantView {
                variant_index: i as u32,
                payload: type_option_view(variants[i].payload),
            },
        ),
        None => None,
    }
}

/// The first variant of that name among the variants of one enum.
pub fn find_variant(enum_def: &EnumType, variant_name: &str) -> (found: Option<ResolvedVariant>)
    ensures
        match found {
            Some(variant) => variant_named(enum_def.variants@, variant_name@) == Some(variant@),
            None => variant_named(enum_def.variants@, variant_name@) is None,
        },
{
    let mut i: usize = 0;
    while i < enum_def.variants.len()
        invariant
            i <= enum_def.variants.len(),
            variant_position(enum_def.variants@, variant_name@, i as int) == variant_position(
                enum_def.variants@,
                variant_name@,
                0,
            ),
        decreases enum_def.variants.len() - i,
    {
        let variant: &EnumVariant = &enum_def.variants[i];
        if same_text(variant.name.as_str(), variant_name) {
            let payload = match &variant.payload {
                Some(ty) => Some(ty.clone()),
                None => None,
            };
            return Some(ResolvedVariant { variant_index: i as u32, payload });
        }
        i += 1;
    }
    None
}

/// The variant of a named enum.
pub fn resolve_enum_variant(
    resolver: &ResolverContext,
    enum_name: &str,
    variant_name: &str,
) -> (resolved: Result<ResolvedVariant, VariantLookupError>)
    ensures
        match resolved {
            Ok(variant) => value_of(resolver.enum_types@, enum_name@) matches Some(definition)
                && variant_named(definition.variants@, variant_name@) == Some(variant@),
            Err(VariantLookupError::UnknownEnum) => value_of(resolver.enum_types@, enum_name@) is None,
            Err(VariantLookupError::UnknownVariant) => value_of(
                resolver.enum_types@,
                enum_name@,
            ) matches Some(definition) && variant_named(definition.variants@, variant_name@) is None,
        },
{
    match resolver.get_enum(enum_name) {
        Some(definition) => match find_variant(definition, variant_name) {
            Some(variant) => Ok(variant),
            None => Err(VariantLookupError::UnknownVariant),
        },
        None => Err(VariantLookupError::UnknownEnum),
    }
}

/// What [`variant_position`] finds.
proof fn variant_position_is_first(variants: Seq<EnumVariant>, name: Seq<char>, i: int)
    requires
        0 <= i,
    ensures
        match variant_position(variants, name, i) {
            Some(p) => i <= p < variants.len() && variants[p].name@ == name && forall|j: int|
                i <= j < p ==> (#[trigger] variants[j]).name@ != name,
            None => forall|j: int| i <= j < variants.len() ==> (#[trigger] variants[j]).name@ != name,
        },
    decreases variants.len() - i,
{
    if i < variants.len() && variants[i].name@ != name {
        variant_position_is_first(variants, name, i + 1);
    }
}

/// A variant resolves against the declaration order of its own enum: where no
/// name is declared twice, the variant declared at position `i` resolves to
/// index `i` with the payload declared there.
pub proof fn variants_resolve_to_their_declared_position(variants: Seq<EnumVariant>, i: int)
    requires
        0 <= i < variants.len() <= u32::MAX,
        forall|a: int, b: int|
            0 <= a < b < variants.len() ==> (#[trigger] variants[a]).name@ != (
            #[trigger] variants[b]).name@,
    ensures
        variant_named(variants, variants[i].name@) == Some(
            (ResolvedVariantView {
                variant_index: i as u32,
                payload: type_option_view(variants[i].payload),
            }),
        ),
{
    variant_position_is_first(variants, variants[i].name@, 0);
}

/// A name that no variant has does not resolve.
pub proof fn undeclared_variants_do_not_resolve(variants: Seq<EnumVariant>, name: Seq<char>)
    ensures
        variant_named(variants, name) is None <==> forall|i: int|
            0 <= i < variants.len() ==> (#[trigger] variants[i]).name@ != name,
{
    variant_position_is_first(variants, name, 0);
}

} // verus!
