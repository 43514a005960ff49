//! What the closure analysis knows of the types of expressions.

use vstd::prelude::*;

use crate::ast::{BinaryOp, Expr, Literal, Param};
use crate::closure_analysis::{
    associated_function_type, inferred, inferred_all_from, method_type, param_type,
    param_types_from, path_constructor_type, WalkView,
};
use crate::resolver::ResolverFacts;
use crate::types::{
    canonical_application, canonical_constructors_are_distinct, Mutability, TypeView,
    ARC_TYPE_CONSTRUCTOR, MUTEX_GUARD_TYPE_CONSTRUCTOR, MUTEX_TYPE_CONSTRUCTOR,
};

verus! {

proof fn elements_are_typed_in_order(
    resolver: ResolverFacts,
    types: Seq<TypeView>,
    elements: Seq<Expr>,
    walk: WalkView,
    i: int,
)
    requires
        0 <= i <= elements.len(),
        types.len() == i,
        forall|k: int| 0 <= k < i ==> inferred(resolver, elements[k], walk) == Some(
            #[trigger] types[k],
        ),
    ensures
        match inferred_all_from(resolver, types, elements, walk, i) {
            Some(all) => all.len() == elements.len() && forall|k: int|
                0 <= k < elements.len() ==> inferred(resolver, elements[k], walk) == Some(
                    #[trigger] all[k],
                ),
            None => exists|k: int|
                0 <= k < elements.len() && inferred(
                    resolver,
                    #[trigger] elements[k],
                    walk,
                ) is None,
        },
    decreases elements.len() - i,
{
    if i < elements.len() {
        match inferred(resolver, elements[i], walk) {
            Some(ty) => {
                let more = types.push(ty);
                assert forall|k: int| 0 <= k < i + 1 implies inferred(resolver, elements[k], walk)
                    == Some(#[trigger] more[k]) by {
                    if k < i {
                        assert(more[k] == types[k]);
                    }
                }
                elements_are_typed_in_order(resolver, more, elements, walk, i + 1);
            },
            None => {
                assert(inferred(resolver, elements[i], walk) is None);
            },
        }
    }
}

proof fn parameters_are_typed_in_order(
    resolver: ResolverFacts,
    types: Seq<TypeView>,
    params: Seq<Param>,
    i: int,
)
    requires
        0 <= i <= params.len(),
        types.len() == i,
        forall|k: int| 0 <= k < i ==> param_type(resolver, params[k]) == Some(#[trigger] types[k]),
    ensures
        param_types_from(resolver, types, params, i) matches Some(all) ==> all.len()
            == params.len() && forall|k: int|
            0 <= k < params.len() ==> param_type(resolver, params[k]) == Some(#[trigger] all[k]),
    decreases params.len() - i,
{
    if i < params.len() {
        if let Some(ty) = param_type(resolver, params[i]) {
            let more = types.push(ty);
            assert forall|k: int| 0 <= k < i + 1 implies param_type(resolver, params[k]) == Some(
                #[trigger] more[k],
            ) by {
                if k < i {
                    assert(more[k] == types[k]);
                }
            }
            parameters_are_typed_in_order(resolver, more, params, i + 1);
        }
    }
}

/// The type of an expression comes from its parts: a name has the type of what is in
/// sight under it, a reference that of a reference to its target, a comparison is a
/// truth value, a calculation has the type of its first operand, an array is made of
/// elements of the type of its first one, an index gives an element, a call the result
/// of its callee, and a closure is a function from its parameters to its body.
pub proof fn types_come_from_the_parts(resolver: ResolverFacts, expr: Expr, walk: WalkView)
    ensures
        match expr {
            Expr::Lit(literal, _) => inferred(resolver, expr, walk) == Some(
                match literal {
                    Literal::Int(_) => TypeView::I32,
                    Literal::Float(_) => TypeView::F64,
                    Literal::Bool(_) => TypeView::Bool,
                    Literal::Str(_) => TypeView::Str,
                    Literal::Char(_) => TypeView::Char,
                },
            ),
            Expr::Ident(name, _) => walk.visible(name.0@) matches Some(binding) ==> inferred(
                resolver,
                expr,
                walk,
            ) == binding.resolved_type,
            Expr::Ref { expr: target, mutability, .. } => match inferred(resolver, expr, walk) {
                Some(TypeView::Ref(inner, m)) => m == mutability && inferred(
                    resolver,
                    *target,
                    walk,
                ) == Some(*inner),
                Some(_) => false,
                None => inferred(resolver, *target, walk) is None,
            },
            Expr::Binary { op, lhs, .. } => match op {
                BinaryOp::Eq
                | BinaryOp::Ne
                | BinaryOp::Lt
                | BinaryOp::Le
                | BinaryOp::Gt
                | BinaryOp::Ge
                | BinaryOp::And
                | BinaryOp::Or => inferred(resolver, expr, walk) == Some(TypeView::Bool),
                _ => inferred(resolver, expr, walk) == inferred(resolver, *lhs, walk),
            },
            Expr::ArrayLit { elements, .. } => match inferred(resolver, expr, walk) {
                Some(TypeView::Array(inner, len)) => len == elements@.len() as usize && elements@.len() > 0
                    && inferred(resolver, elements@[0], walk) == Some(*inner),
                Some(_) => false,
                None => elements@.len() == 0 || inferred(resolver, elements@[0], walk) is None,
            },
            Expr::StructLit { name, .. } => inferred(resolver, expr, walk) == Some(
                TypeView::Named(name.0@),
            ),
            Expr::Index { base, .. } => inferred(resolver, *base, walk) matches Some(
                TypeView::Array(inner, _),
            ) ==> inferred(resolver, expr, walk) == Some(*inner),
            Expr::Call { callee, .. } => inferred(resolver, *callee, walk) matches Some(
                TypeView::Function { ret, .. },
            ) ==> inferred(resolver, expr, walk) == Some(*ret),
            Expr::Closure { params, body, .. } => match inferred(resolver, expr, walk) {
                Some(TypeView::Function { params: types, ret }) => types.len() == params@.len() && (
                forall|k: int|
                    0 <= k < types.len() ==> param_type(resolver, params@[k]) == Some(
                        #[trigger] types[k],
                    )) && inferred(resolver, *body, walk) == Some(*ret),
                Some(_) => false,
                None => true,
            },
            _ => true,
        },
{
    match expr {
        Expr::Closure { params, .. } => {
            parameters_are_typed_in_order(resolver, Seq::empty(), params@, 0);
        },
        _ => {},
    }
}

/// A tuple is made of the types of its elements in their order.
pub proof fn tuples_are_typed_by_their_elements(
    resolver: ResolverFacts,
    expr: Expr,
    walk: WalkView,
    k: int,
)
    requires
        expr is Tuple,
        0 <= k < expr->Tuple_elements@.len(),
    ensures
        ({
            let elements = expr->Tuple_elements@;
            let ty = inferred(resolver, expr, walk);
            &&& ty is Some ==> ty->0 is Tuple && (ty->0)->Tuple_0.len() == elements.len()
                && inferred(resolver, elements[k], walk) == Some((ty->0)->Tuple_0[k])
            &&& ty is None ==> exists|j: int|
                0 <= j < elements.len() && inferred(resolver, #[trigger] elements[j], walk) is None
        }),
{
    let elements = expr->Tuple_elements@;
    elements_are_typed_in_order(resolver, Seq::empty(), elements, walk, 0);
    let all = inferred_all_from(resolver, Seq::empty(), elements, walk, 0);
    assert(inferred(resolver, expr, walk) == match all {
        Some(types) => Some(TypeView::Tuple(types)),
        None => None,
    });
    if let Some(types) = all {
        assert(inferred(resolver, elements[k], walk) == Some(types[k]));
    }
}

/// The two ways to write a construction agree: with a path as one name, and with the
/// function as a field of its type.
pub proof fn constructions_agree_in_both_spellings(
    resolver: ResolverFacts,
    argument: TypeView,
)
    ensures
        path_constructor_type(resolver, "Own::new"@, Some(argument)) == Some(
            TypeView::Own(Box::new(argument)),
        ),
        path_constructor_type(resolver, "Shared::new"@, Some(argument)) == Some(
            TypeView::Shared(Box::new(argument)),
        ),
        associated_function_type(resolver, "Own"@, "new"@, Some(argument)) == Some(
            TypeView::Own(Box::new(argument)),
        ),
        associated_function_type(resolver, "Shared"@, "new"@, Some(argument)) == Some(
            TypeView::Shared(Box::new(argument)),
        ),
        resolver.names_struct("Arc"@, "std/sync"@, "Arc"@) ==> path_constructor_type(
            resolver,
            "Arc::new"@,
            Some(argument),
        ) == Some(canonical_application(ARC_TYPE_CONSTRUCTOR@, argument))
            && associated_function_type(resolver, "Arc"@, "new"@, Some(argument)) == Some(
            canonical_application(ARC_TYPE_CONSTRUCTOR@, argument),
        ),
        resolver.names_struct("Mutex"@, "std/sync"@, "Mutex"@) ==> path_constructor_type(
            resolver,
            "Mutex::new"@,
            Some(argument),
        ) == Some(canonical_application(MUTEX_TYPE_CONSTRUCTOR@, argument))
            && associated_function_type(resolver, "Mutex"@, "new"@, Some(argument)) == Some(
            canonical_application(MUTEX_TYPE_CONSTRUCTOR@, argument),
        ),
{
    reveal_strlit("Own::new");
    reveal_strlit("Shared::new");
    reveal_strlit("Arc::new");
    reveal_strlit("Mutex::new");
    reveal_strlit("Own");
    reveal_strlit("Shared");
    reveal_strlit("Arc");
    reveal_strlit("Mutex");
    reveal_strlit("String");
    assert("Own::new"@.len() == 8 && "Own::new"@[0] == 'O');
    assert("Arc::new"@.len() == 8 && "Arc::new"@[0] == 'A');
    assert("Shared::new"@.len() == 11);
    assert("Mutex::new"@.len() == 10);
    assert("Own"@.len() == 3 && "Own"@[0] == 'O');
    assert("Arc"@.len() == 3 && "Arc"@[0] == 'A');
    assert("Shared"@.len() == 6 && "Shared"@[1] == 'h');
    assert("String"@.len() == 6 && "String"@[1] == 't');
    assert("Mutex"@.len() == 5);
}

/// Shared cells and locks give access to what they hold: a copy of a shared cell is a
/// shared cell, a lock gives a guard, a tried lock an optional one, also through a
/// reference, and borrowing gives a reference to the contents.
pub proof fn synchronization_methods_give_access(inner: TypeView, mutability: Mutability)
    ensures
        ({
            let arc = canonical_application(ARC_TYPE_CONSTRUCTOR@, inner);
            let mutex = canonical_application(MUTEX_TYPE_CONSTRUCTOR@, inner);
            let through = TypeView::Ref(Box::new(mutex), mutability);
            let guard = canonical_application(MUTEX_GUARD_TYPE_CONSTRUCTOR@, inner);
            let tried = TypeView::App { base: "Option"@, args: seq![guard] };
            &&& method_type(arc, "clone"@) == Some(arc)
            &&& method_type(arc, "borrow"@) == Some(
                TypeView::Ref(Box::new(inner), Mutability::Immutable),
            )
            &&& method_type(mutex, "lock"@) == Some(guard)
            &&& method_type(through, "lock"@) == Some(guard)
            &&& method_type(mutex, "try_lock"@) == Some(tried)
            &&& method_type(through, "try_lock"@) == Some(tried)
            &&& method_type(guard, "borrow_mut"@) == Some(
                TypeView::Ref(Box::new(inner), Mutability::Mutable),
            )
        }),
{
    canonical_constructors_are_distinct();
    reveal_strlit("clone");
    reveal_strlit("borrow");
    reveal_strlit("lock");
    reveal_strlit("try_lock");
    assert("clone"@.len() == 5);
    assert("borrow"@.len() == 6);
    assert("lock"@.len() == 4);
    assert("try_lock"@.len() == 8);
}

} // verus!
