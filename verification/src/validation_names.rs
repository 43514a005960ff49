//! Which names stand for what validation allows: keys that can be hashed, intrinsics
//! of thread scopes, and declared types.

use vstd::prelude::*;

use crate::ast::{Item, Module, TypeExprView};
use crate::resolver::ResolverContext;
use crate::table::{has_key, value_of};
use crate::types::TypeView;
use crate::validation::{
    hashable_key, item_gives_hash, module_gives_hash, returns_scoped_handle, struct_is_hashable,
    takes_scope_callback, undefined_name, FunctionRoleView,
};

verus! {

/// A struct can be hashed as soon as an implementation is known for it, or this
/// module writes one down: among the interfaces of the struct, inside its definition,
/// or in a block of its own. Nothing else in the module matters.
pub proof fn structs_are_hashed_where_declared(
    name: Seq<char>,
    module: Module,
    ctx: ResolverContext,
    i: int,
    k: int,
)
    ensures
        (value_of(ctx.interface_impls@, name) matches Some(impls) && has_key(impls@, "Hash"@))
            ==> struct_is_hashable(name, module, ctx),
        0 <= i < module.items@.len() ==> match module.items@[i] {
            Item::Struct(definition) => {
                &&& definition.name.0@ == name && 0 <= k < definition.interfaces@.len()
                    && definition.interfaces@[k].0@ == "Hash"@ ==> struct_is_hashable(
                    name,
                    module,
                    ctx,
                )
                &&& definition.name.0@ == name && 0 <= k < definition.inline_impls@.len()
                    && definition.inline_impls@[k].interface.0@ == "Hash"@ ==> struct_is_hashable(
                    name,
                    module,
                    ctx,
                )
                &&& definition.name.0@ != name ==> !item_gives_hash(module.items@[i], name)
            },
            Item::Impl(block) => {
                &&& block.target.0@ == name && block.interface.0@ == "Hash"@
                    ==> struct_is_hashable(name, module, ctx)
                &&& block.target.0@ != name || block.interface.0@ != "Hash"@ ==> !item_gives_hash(
                    module.items@[i],
                    name,
                )
            },
            _ => !item_gives_hash(module.items@[i], name),
        },
{
    if 0 <= i < module.items@.len() {
        match module.items@[i] {
            Item::Struct(definition) => {
                if definition.name.0@ == name && 0 <= k < definition.interfaces@.len()
                    && definition.interfaces@[k].0@ == "Hash"@ {
                    assert(item_gives_hash(module.items@[i], name));
                    assert(module_gives_hash(module, name));
                }
                if definition.name.0@ == name && 0 <= k < definition.inline_impls@.len()
                    && definition.inline_impls@[k].interface.0@ == "Hash"@ {
                    assert(item_gives_hash(module.items@[i], name));
                    assert(module_gives_hash(module, name));
                }
            },
            Item::Impl(block) => {
                if block.target.0@ == name && block.interface.0@ == "Hash"@ {
                    assert(item_gives_hash(module.items@[i], name));
                    assert(module_gives_hash(module, name));
                }
            },
            _ => {},
        }
    }
}

/// A key is a generic parameter of its item, or denotes a type that can be hashed:
/// a plain value, an open parameter, or a struct with an implementation. A number
/// with a fraction, an owner, a container, a callable or an aggregate is no key.
pub proof fn keys_denote_what_can_be_hashed(
    key: TypeExprView,
    ctx: ResolverContext,
    generics: Seq<Seq<char>>,
    module: Module,
    ty: TypeView,
)
    requires
        ctx.denoted_type(key) == Some(ty),
        !(key matches TypeExprView::Path { segments, .. } && segments.len() == 1
            && generics.contains(segments[0])),
    ensures
        hashable_key(key, ctx, generics, module) <==> match ty {
            TypeView::I8
            | TypeView::I32
            | TypeView::I64
            | TypeView::U8
            | TypeView::U32
            | TypeView::U64
            | TypeView::Usize
            | TypeView::Bool
            | TypeView::Char
            | TypeView::Str
            | TypeView::String
            | TypeView::Ref(..)
            | TypeView::RawPtr(..)
            | TypeView::Param(_) => true,
            TypeView::Named(name) => struct_is_hashable(name, module, ctx),
            _ => false,
        },
{
}

/// Scoped handles are returned by the spawn of the standard library's thread scope
/// alone, and scope callbacks are taken by its scope function alone, whatever else
/// has these names.
pub proof fn thread_scopes_are_intrinsic(ctx: ResolverContext, role: FunctionRoleView)
    requires
        ctx.current_module is None,
    ensures
        returns_scoped_handle(ctx, role) ==> match role {
            FunctionRoleView::Method { owner, name } => owner == "Scope"@ && name == "spawn"@
                && ctx.names_struct("Scope"@, "std/thread"@, "Scope"@),
            FunctionRoleView::Free { name } => name == "Scope::spawn"@ && ctx.names_function(
                "scope"@,
                "std/thread"@,
                "scope"@,
            ),
            FunctionRoleView::Ordinary => false,
        },
        takes_scope_callback(ctx, role) <==> (role matches FunctionRoleView::Free { name } && name
            == "scope"@ && ctx.names_function("scope"@, "std/thread"@, "scope"@)),
        ctx.names_struct("Scope"@, "std/thread"@, "Scope"@) && role == (FunctionRoleView::Method {
            owner: "Scope"@,
            name: "spawn"@,
        }) ==> returns_scoped_handle(ctx, role),
{
}

/// A named type is missing exactly if nothing declares it: neither a struct, nor an
/// enum, nor a generic parameter.
pub proof fn missing_types_are_declared_nowhere(
    ctx: ResolverContext,
    generics: Seq<Seq<char>>,
    name: Seq<char>,
)
    ensures
        undefined_name(ctx, generics, TypeView::Named(name)) == (if value_of(
            ctx.struct_types@,
            name,
        ) is Some || value_of(ctx.enum_types@, name) is Some || generics.contains(name) {
            None
        } else {
            Some(name)
        }),
{
}

} // verus!
