//! What a module satisfies that passes validation.

use vstd::prelude::*;

use crate::ast::{Item, Module, TypeExprView};
use crate::diag::Span;
use crate::resolver::{idents_view, ResolverContext};
use crate::table::value_of;
use crate::text::joined;
use crate::types::{EnumVariant, Type};
use crate::validation::{
    application_errors, borrowed_callable_errors, borrowed_items_errors,
    borrowed_positions_errors, direct_place, hashable_key, holds_borrowed_callable,
    holds_scoped_token, is_direct_scoped_type, item_generics, item_positions, map_items_errors,
    map_positions_errors, map_type_errors, map_types_errors_from, returns_scoped_handle,
    scoped_items_errors, scoped_names_are_canonical, scoped_position_errors,
    scoped_positions_errors, takes_scope_callback, type_or_name, undefined_const_errors,
    undefined_enum_errors, undefined_field_errors, undefined_name, undefined_struct_errors,
    undefined_type_errors, undefined_variant_errors, usage_errors, TypePlace, TypePositionView,
};

verus! {

/// A borrowed callable stands nowhere but as the whole type of a parameter or
/// of a local binding.
pub open spec fn borrowed_callable_fits(ctx: ResolverContext, position: TypePositionView) -> bool {
    ctx.denoted_type(position.ty) matches Some(ty) ==> holds_borrowed_callable(ty)
        ==> direct_place(position.place) && ty is BorrowedFunction
}

/// A scoped-thread token comes from the standard library and stands nowhere but
/// as the whole type of a parameter, save in the two intrinsic signatures.
/// Bindings inside a body are free.
pub open spec fn scoped_token_fits(ctx: ResolverContext, position: TypePositionView) -> bool {
    ctx.denoted_type(position.ty) matches Some(ty) ==> {
        ||| !holds_scoped_token(ty)
        ||| position.place == TypePlace::LocalBinding
        ||| position.place == TypePlace::Parameter && takes_scope_callback(ctx, position.role)
        ||| position.place == TypePlace::FunctionReturn && returns_scoped_handle(
            ctx,
            position.role,
        )
        ||| scoped_names_are_canonical(position.ty, ctx) && is_direct_scoped_type(ty) && (
        position.place == TypePlace::Parameter || position.place == TypePlace::InterfaceParameter)
    }
}

/// A `Map` has a key that can be hashed and a value; a callable type has its
/// parameters and its result.
pub open spec fn application_fits(
    name: Seq<char>,
    args: Seq<TypeExprView>,
    ctx: ResolverContext,
    generics: Seq<Seq<char>>,
    module: Module,
) -> bool {
    &&& name == "Map"@ ==> args.len() == 2 && hashable_key(args[0], ctx, generics, module)
    &&& name == "FnOnce"@ || name == "Fn"@ || name == "FnMut"@ ==> args.len() == 2
}

/// Every application inside a type expression fits.
pub open spec fn applications_fit(
    ty: TypeExprView,
    ctx: ResolverContext,
    generics: Seq<Seq<char>>,
    module: Module,
) -> bool
    decreases ty,
{
    match ty {
        TypeExprView::App { base, args, .. } => {
            &&& *base matches TypeExprView::Path { segments, .. } ==> application_fits(
                joined(segments, "::"@),
                args,
                ctx,
                generics,
                module,
            )
            &&& forall|i: int|
                0 <= i < args.len() ==> applications_fit(#[trigger] args[i], ctx, generics, module)
        },
        TypeExprView::Ref { inner, .. } => applications_fit(*inner, ctx, generics, module),
        TypeExprView::Array { elem, .. } => applications_fit(*elem, ctx, generics, module),
        TypeExprView::Tuple { elements, .. } => forall|i: int|
            0 <= i < elements.len() ==> applications_fit(
                #[trigger] elements[i],
                ctx,
                generics,
                module,
            ),
        TypeExprView::Path { .. } => true,
    }
}

/// Whether the type at a position of an item fits.
pub open spec fn position_fits(
    ctx: ResolverContext,
    module: Module,
    item: Item,
    position: TypePositionView,
) -> bool {
    &&& borrowed_callable_fits(ctx, position)
    &&& scoped_token_fits(ctx, position)
    &&& applications_fit(position.ty, ctx, item_generics(item, module, ctx), module)
}

proof fn borrowed_positions_are_judged(
    ctx: ResolverContext,
    positions: Seq<TypePositionView>,
    i: int,
)
    requires
        0 <= i,
    ensures
        borrowed_positions_errors(ctx, positions, i).len() == 0 <==> forall|k: int|
            i <= k < positions.len() ==> borrowed_callable_fits(ctx, #[trigger] positions[k]),
    decreases positions.len() - i,
{
    if i < positions.len() {
        borrowed_positions_are_judged(ctx, positions, i + 1);
        assert(borrowed_callable_errors(ctx, positions[i]).len() == 0 <==> borrowed_callable_fits(
            ctx,
            positions[i],
        ));
    }
}

proof fn scoped_positions_are_judged(
    ctx: ResolverContext,
    positions: Seq<TypePositionView>,
    i: int,
)
    requires
        0 <= i,
    ensures
        scoped_positions_errors(ctx, positions, i).len() == 0 <==> forall|k: int|
            i <= k < positions.len() ==> scoped_token_fits(ctx, #[trigger] positions[k]),
    decreases positions.len() - i,
{
    if i < positions.len() {
        scoped_positions_are_judged(ctx, positions, i + 1);
        assert(scoped_position_errors(ctx, positions[i]).len() == 0 <==> scoped_token_fits(
            ctx,
            positions[i],
        ));
    }
}

proof fn applications_are_judged(
    ty: TypeExprView,
    ctx: ResolverContext,
    generics: Seq<Seq<char>>,
    module: Module,
)
    ensures
        map_type_errors(ty, ctx, generics, module).len() == 0 <==> applications_fit(
            ty,
            ctx,
            generics,
            module,
        ),
    decreases ty, 0nat,
{
    reveal_strlit("Map");
    reveal_strlit("FnOnce");
    reveal_strlit("Fn");
    reveal_strlit("FnMut");
    match ty {
        TypeExprView::App { base, args, span } => {
            all_applications_are_judged(args, ctx, generics, module, 0);
            match *base {
                TypeExprView::Path { segments, .. } => {
                    let name = joined(segments, "::"@);
                    assert("Map"@.len() != "FnOnce"@.len());
                    assert("Map"@.len() != "Fn"@.len());
                    assert("Map"@.len() != "FnMut"@.len());
                    assert(application_errors(name, args, span, ctx, generics, module).len() == 0
                        <==> application_fits(name, args, ctx, generics, module));
                },
                _ => {},
            }
        },
        TypeExprView::Ref { inner, .. } => {
            applications_are_judged(*inner, ctx, generics, module);
        },
        TypeExprView::Array { elem, .. } => {
            applications_are_judged(*elem, ctx, generics, module);
        },
        TypeExprView::Tuple { elements, .. } => {
            all_applications_are_judged(elements, ctx, generics, module, 0);
        },
        TypeExprView::Path { .. } => {},
    }
}

proof fn all_applications_are_judged(
    types: Seq<TypeExprView>,
    ctx: ResolverContext,
    generics: Seq<Seq<char>>,
    module: Module,
    i: int,
)
    requires
        0 <= i,
    ensures
        map_types_errors_from(types, ctx, generics, module, i).len() == 0 <==> forall|k: int|
            i <= k < types.len() ==> applications_fit(#[trigger] types[k], ctx, generics, module),
    decreases types, types.len() - i,
{
    if i < types.len() {
        applications_are_judged(types[i], ctx, generics, module);
        all_applications_are_judged(types, ctx, generics, module, i + 1);
    }
}

proof fn map_positions_are_judged(
    ctx: ResolverContext,
    module: Module,
    generics: Seq<Seq<char>>,
    positions: Seq<TypePositionView>,
    i: int,
)
    requires
        0 <= i,
    ensures
        map_positions_errors(ctx, module, generics, positions, i).len() == 0 <==> forall|k: int|
            i <= k < positions.len() ==> applications_fit(
                (#[trigger] positions[k]).ty,
                ctx,
                generics,
                module,
            ),
    decreases positions.len() - i,
{
    if i < positions.len() {
        applications_are_judged(positions[i].ty, ctx, generics, module);
        map_positions_are_judged(ctx, module, generics, positions, i + 1);
    }
}

/// Whether all types of the items from `i` on fit.
spec fn items_fit(ctx: ResolverContext, module: Module, i: int) -> bool {
    forall|k: int, p: int|
        i <= k < module.items@.len() && 0 <= p < item_positions(module.items@[k]).len()
            ==> position_fits(
            ctx,
            module,
            module.items@[k],
            #[trigger] item_positions(module.items@[k])[p],
        )
}

proof fn items_are_judged(ctx: ResolverContext, module: Module, i: int)
    requires
        0 <= i,
    ensures
        borrowed_items_errors(ctx, module.items@, i).len() == 0 && scoped_items_errors(
            ctx,
            module.items@,
            i,
        ).len() == 0 && map_items_errors(ctx, module, i).len() == 0 <==> items_fit(ctx, module, i),
    decreases module.items@.len() - i,
{
    let items = module.items@;
    if i < items.len() {
        let positions = item_positions(items[i]);
        let generics = item_generics(items[i], module, ctx);
        items_are_judged(ctx, module, i + 1);
        borrowed_positions_are_judged(ctx, positions, 0);
        scoped_positions_are_judged(ctx, positions, 0);
        map_positions_are_judged(ctx, module, generics, positions, 0);
        let own = forall|p: int|
            0 <= p < positions.len() ==> position_fits(
                ctx,
                module,
                items[i],
                #[trigger] positions[p],
            );
        assert(items_fit(ctx, module, i) <==> own && items_fit(ctx, module, i + 1)) by {
            if items_fit(ctx, module, i) {
                assert forall|p: int| 0 <= p < positions.len() implies position_fits(
                    ctx,
                    module,
                    items[i],
                    #[trigger] positions[p],
                ) by {
                    assert(item_positions(items[i])[p] == positions[p]);
                }
            }
            if own && items_fit(ctx, module, i + 1) {
                assert forall|k: int, p: int|
                    i <= k < items.len() && 0 <= p < item_positions(
                        items[k],
                    ).len() implies position_fits(
                    ctx,
                    module,
                    items[k],
                    #[trigger] item_positions(items[k])[p],
                ) by {
                    if k == i {
                        assert(position_fits(ctx, module, items[i], positions[p]));
                    }
                }
            }
        }
        assert(own <==> borrowed_positions_errors(ctx, positions, 0).len() == 0
            && scoped_positions_errors(ctx, positions, 0).len() == 0 && map_positions_errors(
            ctx,
            module,
            generics,
            positions,
            0,
        ).len() == 0) by {
            if borrowed_positions_errors(ctx, positions, 0).len() == 0 && scoped_positions_errors(
                ctx,
                positions,
                0,
            ).len() == 0 && map_positions_errors(ctx, module, generics, positions, 0).len() == 0 {
                assert forall|p: int| 0 <= p < positions.len() implies position_fits(
                    ctx,
                    module,
                    items[i],
                    #[trigger] positions[p],
                ) by {
                    assert(borrowed_callable_fits(ctx, positions[p]));
                    assert(scoped_token_fits(ctx, positions[p]));
                    assert(applications_fit(positions[p].ty, ctx, generics, module));
                }
            }
            if own {
                assert forall|p: int| 0 <= p < positions.len() implies borrowed_callable_fits(
                    ctx,
                    #[trigger] positions[p],
                ) && scoped_token_fits(ctx, positions[p]) && applications_fit(
                    positions[p].ty,
                    ctx,
                    generics,
                    module,
                ) by {
                    assert(position_fits(ctx, module, items[i], positions[p]));
                }
            }
        }
    }
}

/// A module passes the checks on the use of types exactly if every type that it
/// writes down fits its place: no borrowed callable and no scoped-thread token
/// where it would escape, no `Map` without a hashable key, no callable type with
/// a wrong number of arguments.
pub proof fn modules_without_usage_errors_fit(module: Module, ctx: ResolverContext)
    ensures
        usage_errors(module, ctx).len() == 0 <==> forall|k: int, p: int|
            0 <= k < module.items@.len() && 0 <= p < item_positions(module.items@[k]).len()
                ==> position_fits(
                ctx,
                module,
                module.items@[k],
                #[trigger] item_positions(module.items@[k])[p],
            ),
{
    items_are_judged(ctx, module, 0);
}

/// Whether an item mentions declared types only, as far as its type names are
/// checked: the types of fields, payloads and constants themselves.
pub open spec fn mentions_declared_types(ctx: ResolverContext, item: Item) -> bool {
    match item {
        Item::Struct(s) => value_of(ctx.struct_types@, s.name.0@) matches Some(definition)
            ==> fields_are_declared(ctx, idents_view(s.generic_params@), definition.fields@, 0),
        Item::Enum(e) => value_of(ctx.enum_types@, e.name.0@) matches Some(definition)
            ==> payloads_are_declared(ctx, idents_view(e.generic_params@), definition.variants@, 0),
        Item::Const(def) => undefined_name(ctx, Seq::empty(), type_or_name(ctx, def.ty@)) is None,
        _ => true,
    }
}

pub open spec fn fields_are_declared(
    ctx: ResolverContext,
    generics: Seq<Seq<char>>,
    fields: Seq<(String, Type)>,
    i: int,
) -> bool {
    forall|k: int|
        i <= k < fields.len() ==> undefined_name(ctx, generics, (#[trigger] fields[k]).1@) is None
}

pub open spec fn payloads_are_declared(
    ctx: ResolverContext,
    generics: Seq<Seq<char>>,
    variants: Seq<EnumVariant>,
    i: int,
) -> bool {
    forall|k: int|
        i <= k < variants.len() ==> ((#[trigger] variants[k]).payload matches Some(payload)
            ==> undefined_name(ctx, generics, payload@) is None)
}

proof fn fields_are_judged(
    ctx: ResolverContext,
    structure: Seq<char>,
    generics: Seq<Seq<char>>,
    fields: Seq<(String, Type)>,
    span: Span,
    i: int,
)
    requires
        0 <= i,
    ensures
        undefined_field_errors(ctx, structure, generics, fields, span, i).len() == 0
            <==> fields_are_declared(ctx, generics, fields, i),
    decreases fields.len() - i,
{
    if i < fields.len() {
        fields_are_judged(ctx, structure, generics, fields, span, i + 1);
    }
}

proof fn payloads_are_judged(
    ctx: ResolverContext,
    enumeration: Seq<char>,
    generics: Seq<Seq<char>>,
    variants: Seq<EnumVariant>,
    span: Span,
    i: int,
)
    requires
        0 <= i,
    ensures
        undefined_variant_errors(ctx, enumeration, generics, variants, span, i).len() == 0
            <==> payloads_are_declared(ctx, generics, variants, i),
    decreases variants.len() - i,
{
    if i < variants.len() {
        payloads_are_judged(ctx, enumeration, generics, variants, span, i + 1);
    }
}

proof fn declarations_are_judged(ctx: ResolverContext, items: Seq<Item>, i: int)
    requires
        0 <= i,
    ensures
        undefined_struct_errors(ctx, items, i).len() == 0 && undefined_enum_errors(
            ctx,
            items,
            i,
        ).len() == 0 && undefined_const_errors(ctx, items, i).len() == 0 <==> forall|k: int|
            i <= k < items.len() ==> mentions_declared_types(ctx, #[trigger] items[k]),
    decreases items.len() - i,
{
    if i < items.len() {
        declarations_are_judged(ctx, items, i + 1);
        match items[i] {
            Item::Struct(s) => match value_of(ctx.struct_types@, s.name.0@) {
                Some(definition) => {
                    fields_are_judged(
                        ctx,
                        s.name.0@,
                        idents_view(s.generic_params@),
                        definition.fields@,
                        s.span,
                        0,
                    );
                },
                None => {},
            },
            Item::Enum(e) => match value_of(ctx.enum_types@, e.name.0@) {
                Some(definition) => {
                    payloads_are_judged(
                        ctx,
                        e.name.0@,
                        idents_view(e.generic_params@),
                        definition.variants@,
                        e.span,
                        0,
                    );
                },
                None => {},
            },
            _ => {},
        }
    }
}

/// A module passes the check of its type names exactly if every struct field,
/// enum payload and constant whose type is a bare name names a generic parameter
/// or a declared type.
pub proof fn modules_without_undefined_types_are_closed(module: Module, ctx: ResolverContext)
    ensures
        undefined_type_errors(module, ctx).len() == 0 <==> forall|k: int|
            0 <= k < module.items@.len() ==> mentions_declared_types(
                ctx,
                #[trigger] module.items@[k],
            ),
{
    declarations_are_judged(ctx, module.items@, 0);
}

} // verus!
