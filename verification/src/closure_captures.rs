//! What a capture does to the captured binding: data that runs cleanup, or that
//! somebody owns, is never copied into a closure.

use vstd::prelude::*;

use crate::ast::Function;
use crate::closure_analysis::{all_copyable, copyable, function_analysis, CaptureOwnership};
use crate::closure_laws::{every_closure_is_well_recorded, well_recorded};
use crate::lower::kinds::{has_drop_glue, moves_on_use};
use crate::resolver::ResolverFacts;
use crate::types::TypeView;

verus! {

/// Whether values of the type have an owner: an allocation, a handle, a callable
/// environment, or a declared type, whose values may hold any of these.
pub open spec fn has_an_owner(ty: TypeView) -> bool
    decreases ty,
{
    match ty {
        TypeView::Own(_)
        | TypeView::Shared(_)
        | TypeView::String
        | TypeView::Atomic(_)
        | TypeView::App { .. }
        | TypeView::Named(_)
        | TypeView::Enum(_)
        | TypeView::Function { .. }
        | TypeView::BorrowedFunction { .. }
        | TypeView::Param(_) => true,
        TypeView::Array(element, _) => has_an_owner(*element),
        TypeView::Tuple(elements) => any_has_an_owner(elements),
        _ => false,
    }
}

pub open spec fn any_has_an_owner(types: Seq<TypeView>) -> bool
    decreases types,
{
    exists|i: int| 0 <= i < types.len() && has_an_owner(#[trigger] types[i])
}

/// What can be copied has no owner, runs no cleanup and is not moved by a use.
pub proof fn copies_have_no_owner(ty: TypeView)
    requires
        copyable(ty),
    ensures
        !has_an_owner(ty),
        !has_drop_glue(ty),
        !moves_on_use(ty),
    decreases ty,
{
    match ty {
        TypeView::Array(element, _) => copies_have_no_owner(*element),
        TypeView::Tuple(elements) => copied_lists_have_no_owner(elements),
        _ => {},
    }
}

proof fn copied_lists_have_no_owner(types: Seq<TypeView>)
    requires
        all_copyable(types),
    ensures
        !any_has_an_owner(types),
    decreases types,
{
    assert forall|i: int| 0 <= i < types.len() implies !has_an_owner(#[trigger] types[i]) by {
        copies_have_no_owner(types[i]);
    }
}

/// Numbers, flags, characters, text slices, references and raw pointers can be
/// copied; an array or a tuple can be exactly if everything in it can.
pub proof fn plain_values_can_be_copied(inner: TypeView, elements: Seq<TypeView>, len: usize)
    ensures
        copyable(TypeView::I8) && copyable(TypeView::I32) && copyable(TypeView::I64),
        copyable(TypeView::U8) && copyable(TypeView::U32) && copyable(TypeView::U64),
        copyable(TypeView::Usize) && copyable(TypeView::F32) && copyable(TypeView::F64),
        copyable(TypeView::Bool) && copyable(TypeView::Char) && copyable(TypeView::Str),
        forall|mutability: crate::types::Mutability| #[trigger]
            copyable(TypeView::Ref(Box::new(inner), mutability)),
        copyable(TypeView::RawPtr(Box::new(inner))),
        copyable(TypeView::Array(Box::new(inner), len)) == copyable(inner),
        copyable(TypeView::Tuple(elements)) == (forall|i: int|
            0 <= i < elements.len() ==> copyable(#[trigger] elements[i])),
{
    reveal_with_fuel(copyable, 2);
    reveal_with_fuel(all_copyable, 2);
}

/// A closure takes everything over that has an owner, and everything whose type is
/// not known; it copies exactly the rest that can be copied.
pub proof fn owned_captures_are_moved(
    resolver: ResolverFacts,
    function: Function,
    closure: int,
    capture: int,
)
    requires
        0 <= closure < function_analysis(resolver, function).closures.len(),
        0 <= capture < function_analysis(resolver, function).closures[closure].captures.len(),
    ensures
        ({
            let captured = function_analysis(
                resolver,
                function,
            ).closures[closure].captures[capture];
            match captured.resolved_type {
                None => captured.ownership == CaptureOwnership::Move,
                Some(ty) => {
                    &&& has_an_owner(ty) || has_drop_glue(ty) || moves_on_use(ty)
                        ==> captured.ownership == CaptureOwnership::Move
                    &&& captured.ownership == CaptureOwnership::Copy <==> copyable(ty)
                },
            }
        }),
{
    every_closure_is_well_recorded(resolver, function);
    let info = function_analysis(resolver, function).closures[closure];
    assert(well_recorded(resolver, info, closure));
    let captured = info.captures[capture];
    match captured.resolved_type {
        Some(ty) => {
            if copyable(ty) {
                copies_have_no_owner(ty);
            }
        },
        None => {},
    }
}

} // verus!
