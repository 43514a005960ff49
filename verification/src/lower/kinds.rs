//! What lowering needs to know of a type: whether values of it are dropped,
//! moved, guards or borrowed, and how diagnostics spell it.

use vstd::prelude::*;

use crate::text::{concat2, concat3, concat5, decimal, decimal_text, ends_with, finishes_with, last_part, leaf, same_text};
use crate::thread::{
    is_canonical_scoped_thread_handle, is_canonical_thread_handle, SCOPED_THREAD_HANDLE_TYPE,
    THREAD_HANDLE_TYPE,
};
use crate::types::{canonical_argument, types_view, BorrowedCallableKind, Mutability, Type, TypeView};

verus! {

/// Whether a type is one of the compiler-owned handles: a reference-counted or
/// locked cell, a lock token, a channel endpoint or a thread handle.
pub open spec fn is_handle(ty: TypeView) -> bool {
    ty.is_arc() || ty.is_mutex() || ty.is_mutex_guard() || ty.is_spsc_sender()
        || ty.is_spsc_receiver() || canonical_argument(ty, THREAD_HANDLE_TYPE@) is Some
        || canonical_argument(ty, SCOPED_THREAD_HANDLE_TYPE@) is Some
}

fn names_handle(ty: &Type) -> (handle: bool)
    ensures
        handle == is_handle(ty@),
{
    ty.is_arc() || ty.is_mutex() || ty.is_mutex_guard() || ty.is_spsc_sender()
        || ty.is_spsc_receiver() || is_canonical_thread_handle(ty)
        || is_canonical_scoped_thread_handle(ty)
}

/// The name behind the last `::`.
pub open spec fn short_name(name: Seq<char>) -> Seq<char> {
    leaf(name, "::"@)
}

/// Whether a generic type is a result or an option.
pub open spec fn is_outcome(base: Seq<char>) -> bool {
    let name = short_name(base);
    name == "Result"@ || name == "Option"@ || name == "TrySendResult"@ || name == "TryRecvResult"@
}

fn names_outcome(base: &str) -> (outcome: bool)
    ensures
        outcome == is_outcome(base@),
{
    let name = last_part(base, "::");
    same_text(name, "Result") || same_text(name, "Option") || same_text(name, "TrySendResult")
        || same_text(name, "TryRecvResult")
}

/// Whether values of the type run cleanup when their owner goes away.
pub open spec fn has_drop_glue(ty: TypeView) -> bool {
    match ty {
        TypeView::Own(_)
        | TypeView::Shared(_)
        | TypeView::Atomic(_)
        | TypeView::String
        | TypeView::Enum(_)
        | TypeView::Function { .. }
        | TypeView::Named(_) => true,
        TypeView::App { base, .. } => short_name(base) == "Vec"@ || short_name(base) == "Map"@
            || is_outcome(base) || is_handle(ty),
        _ => false,
    }
}

pub fn type_has_drop_glue(ty: &Type) -> (dropped: bool)
    ensures
        dropped == has_drop_glue(ty@),
{
    match ty {
        Type::Own(_)
        | Type::Shared(_)
        | Type::Atomic(_)
        | Type::String
        | Type::Enum(_)
        | Type::Function { .. }
        | Type::Named(_) => true,
        Type::App { base, .. } => {
            let name = last_part(base.as_str(), "::");
            same_text(name, "Vec") || same_text(name, "Map") || names_outcome(base.as_str())
                || names_handle(ty)
        },
        _ => false,
    }
}

/// Whether using a local of the type as a value moves it. This is narrower than
/// [`has_drop_glue`]: field access can borrow from a named aggregate, and
/// treating every named aggregate as consumed would move the whole value.
pub open spec fn moves_on_use(ty: TypeView) -> bool {
    match ty {
        TypeView::Own(_)
        | TypeView::Shared(_)
        | TypeView::Atomic(_)
        | TypeView::String
        | TypeView::Enum(_)
        | TypeView::Function { .. } => true,
        TypeView::App { base, .. } => is_outcome(base) || is_handle(ty),
        _ => false,
    }
}

pub fn type_requires_owned_local_tracking(ty: &Type) -> (moves: bool)
    ensures
        moves == moves_on_use(ty@),
{
    match ty {
        Type::Own(_)
        | Type::Shared(_)
        | Type::Atomic(_)
        | Type::String
        | Type::Enum(_)
        | Type::Function { .. } => true,
        Type::App { base, .. } => names_outcome(base.as_str()) || names_handle(ty),
        _ => false,
    }
}

/// Whether values of the type are single-owner guards.
pub open spec fn is_guard(ty: TypeView) -> bool {
    ty.is_mutex_guard() || (ty matches TypeView::Named(name) && finishes_with(
        short_name(name),
        "Guard"@,
    ))
}

pub fn type_is_guard(ty: &Type) -> (guard: bool)
    ensures
        guard == is_guard(ty@),
{
    if ty.is_mutex_guard() {
        return true;
    }
    match ty {
        Type::Named(name) => ends_with(last_part(name.as_str(), "::"), "Guard"),
        _ => false,
    }
}

/// Whether a mutex guard is part of values of the type.
pub open spec fn holds_guard(ty: TypeView) -> bool
    decreases ty, 0nat,
{
    ty.is_mutex_guard() || match ty {
        TypeView::App { args, .. } => any_holds_guard(args),
        TypeView::Tuple(args) => any_holds_guard(args),
        TypeView::Function { params, ret } => any_holds_guard(params) || holds_guard(*ret),
        TypeView::Array(inner, _) => holds_guard(*inner),
        TypeView::Own(inner) => holds_guard(*inner),
        TypeView::RawPtr(inner) => holds_guard(*inner),
        TypeView::Shared(inner) => holds_guard(*inner),
        TypeView::Ref(inner, _) => holds_guard(*inner),
        _ => false,
    }
}

pub open spec fn any_holds_guard(types: Seq<TypeView>) -> bool
    decreases types, 0nat,
{
    exists|i: int| 0 <= i < types.len() && holds_guard(#[trigger] types[i])
}

pub fn type_contains_mutex_guard(ty: &Type) -> (holds: bool)
    ensures
        holds == holds_guard(ty@),
    decreases ty, 0nat,
{
    if ty.is_mutex_guard() {
        return true;
    }
    match ty {
        Type::App { args, .. } => any_contains_mutex_guard(args),
        Type::Tuple(args) => any_contains_mutex_guard(args),
        Type::Function { params, ret } => {
            let target: &Type = ret;
            assert(*(ty@->Function_ret) == target@);
            any_contains_mutex_guard(params) || type_contains_mutex_guard(target)
        },
        Type::Array(inner, _) => {
            let target: &Type = inner;
            assert(*(ty@->Array_0) == target@);
            type_contains_mutex_guard(target)
        },
        Type::Own(inner) => {
            let target: &Type = inner;
            assert(*(ty@->Own_0) == target@);
            type_contains_mutex_guard(target)
        },
        Type::RawPtr(inner) => {
            let target: &Type = inner;
            assert(*(ty@->RawPtr_0) == target@);
            type_contains_mutex_guard(target)
        },
        Type::Shared(inner) => {
            let target: &Type = inner;
            assert(*(ty@->Shared_0) == target@);
            type_contains_mutex_guard(target)
        },
        Type::Ref(inner, _) => {
            let target: &Type = inner;
            assert(*(ty@->Ref_0) == target@);
            type_contains_mutex_guard(target)
        },
        _ => false,
    }
}

fn any_contains_mutex_guard(types: &Vec<Type>) -> (holds: bool)
    ensures
        holds == any_holds_guard(types_view(types@)),
    decreases types, 0nat,
{
    let ghost views = types_view(types@);
    let mut i: usize = 0;
    while i < types.len()
        invariant
            i <= types.len(),
            views == types_view(types@),
            views.len() == types.len(),
            forall|j: int| 0 <= j < i ==> !holds_guard(#[trigger] views[j]),
        decreases types.len() - i,
    {
        assert(views[i as int] == types[i as int]@);
        if type_contains_mutex_guard(&types[i]) {
            assert(holds_guard(views[i as int]));
            return true;
        }
        i += 1;
    }
    false
}

/// Whether a reference or a borrowed callable is part of values of the type.
pub open spec fn holds_borrow(ty: TypeView) -> bool
    decreases ty, 0nat,
{
    match ty {
        TypeView::Ref(_, _) | TypeView::BorrowedFunction { .. } => true,
        TypeView::Array(inner, _) => holds_borrow(*inner),
        TypeView::Own(inner) => holds_borrow(*inner),
        TypeView::RawPtr(inner) => holds_borrow(*inner),
        TypeView::Shared(inner) => holds_borrow(*inner),
        TypeView::App { args, .. } => any_holds_borrow(args),
        TypeView::Tuple(args) => any_holds_borrow(args),
        TypeView::Function { params, .. } => any_holds_borrow(params),
        _ => false,
    }
}

pub open spec fn any_holds_borrow(types: Seq<TypeView>) -> bool
    decreases types, 0nat,
{
    exists|i: int| 0 <= i < types.len() && holds_borrow(#[trigger] types[i])
}

pub fn contains_borrow(ty: &Type) -> (holds: bool)
    ensures
        holds == holds_borrow(ty@),
    decreases ty, 0nat,
{
    match ty {
        Type::Ref(_, _) | Type::BorrowedFunction { .. } => true,
        Type::Array(inner, _) => {
            let target: &Type = inner;
            assert(*(ty@->Array_0) == target@);
            contains_borrow(target)
        },
        Type::Own(inner) => {
            let target: &Type = inner;
            assert(*(ty@->Own_0) == target@);
            contains_borrow(target)
        },
        Type::RawPtr(inner) => {
            let target: &Type = inner;
            assert(*(ty@->RawPtr_0) == target@);
            contains_borrow(target)
        },
        Type::Shared(inner) => {
            let target: &Type = inner;
            assert(*(ty@->Shared_0) == target@);
            contains_borrow(target)
        },
        Type::App { args, .. } => any_contains_borrow(args),
        Type::Tuple(args) => any_contains_borrow(args),
        Type::Function { params, .. } => any_contains_borrow(params),
        _ => false,
    }
}

fn any_contains_borrow(types: &Vec<Type>) -> (holds: bool)
    ensures
        holds == any_holds_borrow(types_view(types@)),
    decreases types, 0nat,
{
    let ghost views = types_view(types@);
    let mut i: usize = 0;
    while i < types.len()
        invariant
            i <= types.len(),
            views == types_view(types@),
            views.len() == types.len(),
            forall|j: int| 0 <= j < i ==> !holds_borrow(#[trigger] views[j]),
        decreases types.len() - i,
    {
        assert(views[i as int] == types[i as int]@);
        if contains_borrow(&types[i]) {
            assert(holds_borrow(views[i as int]));
            return true;
        }
        i += 1;
    }
    false
}

/// How diagnostics of lowering spell a type.
pub open spec fn spelled(ty: TypeView) -> Seq<char>
    decreases ty, 0nat,
{
    match ty {
        TypeView::I8 => "i8"@,
        TypeView::I32 => "i32"@,
        TypeView::I64 => "i64"@,
        TypeView::U8 => "u8"@,
        TypeView::U32 => "u32"@,
        TypeView::U64 => "u64"@,
        TypeView::Usize => "usize"@,
        TypeView::F32 => "f32"@,
        TypeView::F64 => "f64"@,
        TypeView::Bool => "bool"@,
        TypeView::Char => "char"@,
        TypeView::Str => "str"@,
        TypeView::String => "String"@,
        TypeView::Void => "()"@,
        TypeView::Named(name) => name,
        TypeView::Enum(name) => name,
        TypeView::Param(name) => name,
        TypeView::App { base, args } => if args.len() == 0 {
            base
        } else {
            spelled_list(base + "<"@, args, 0) + ">"@
        },
        TypeView::Ref(inner, Mutability::Immutable) => "&"@ + spelled(*inner),
        TypeView::Ref(inner, Mutability::Mutable) => "&mut "@ + spelled(*inner),
        TypeView::Array(inner, size) => "["@ + spelled(*inner) + "; "@ + decimal_text(size as nat)
            + "]"@,
        TypeView::Own(inner) => "Own<"@ + spelled(*inner) + ">"@,
        TypeView::RawPtr(inner) => "RawPtr<"@ + spelled(*inner) + ">"@,
        TypeView::Shared(inner) => "Shared<"@ + spelled(*inner) + ">"@,
        TypeView::Atomic(scalar) => scalar.name(),
        TypeView::Function { params, ret } => "FnOnce<"@ + spelled_params(params) + ", "@ + spelled(
            *ret,
        ) + ">"@,
        TypeView::BorrowedFunction { kind, params, ret } => capability(kind) + "<"@
            + spelled_params(params) + ", "@ + spelled(*ret) + ">"@,
        TypeView::Tuple(elements) => if elements.len() == 0 {
            "()"@
        } else {
            spelled_list("("@, elements, 0) + ")"@
        },
    }
}

/// The texts of the types from position `i` on, separated by commas, after
/// `text`.
pub open spec fn spelled_list(text: Seq<char>, types: Seq<TypeView>, i: int) -> Seq<char>
    decreases types, 0nat, types.len() - i,
{
    if i < 0 || i >= types.len() {
        text
    } else {
        let separated = if i == 0 {
            text
        } else {
            text + ", "@
        };
        spelled_list(separated + spelled(types[i]), types, i + 1)
    }
}

/// How the parameters of a callable type are spelled.
pub open spec fn spelled_params(params: Seq<TypeView>) -> Seq<char>
    decreases params, 1nat,
{
    if params.len() == 0 {
        "()"@
    } else if params.len() == 1 {
        if params[0] is Tuple {
            "("@ + spelled(params[0]) + ",)"@
        } else {
            spelled(params[0])
        }
    } else {
        spelled_list("("@, params, 0) + ")"@
    }
}

pub open spec fn capability(kind: BorrowedCallableKind) -> Seq<char> {
    match kind {
        BorrowedCallableKind::Fn => "Fn"@,
        BorrowedCallableKind::FnMut => "FnMut"@,
    }
}

pub fn type_label(ty: &Type) -> (label: String)
    ensures
        label@ == spelled(ty@),
    decreases ty, 0nat,
{
    match ty {
        Type::I8 => "i8".to_owned(),
        Type::I32 => "i32".to_owned(),
        Type::I64 => "i64".to_owned(),
        Type::U8 => "u8".to_owned(),
        Type::U32 => "u32".to_owned(),
        Type::U64 => "u64".to_owned(),
        Type::Usize => "usize".to_owned(),
        Type::F32 => "f32".to_owned(),
        Type::F64 => "f64".to_owned(),
        Type::Bool => "bool".to_owned(),
        Type::Char => "char".to_owned(),
        Type::Str => "str".to_owned(),
        Type::String => "String".to_owned(),
        Type::Void => "()".to_owned(),
        Type::Named(name) => name.clone(),
        Type::Enum(name) => name.clone(),
        Type::Param(name) => name.clone(),
        Type::App { base, args } => {
            proof {
                assert(types_view(args@).len() == args@.len());
            }
            if args.len() == 0 {
                base.clone()
            } else {
                let mut label = append_labels(concat2(base.as_str(), "<"), args);
                label.append(">");
                label
            }
        },
        Type::Ref(inner, mutability) => {
            let prefix = match mutability {
                Mutability::Immutable => "&",
                Mutability::Mutable => "&mut ",
            };
            concat2(prefix, type_label(inner).as_str())
        },
        Type::Array(inner, size) => concat5(
            "[",
            type_label(inner).as_str(),
            "; ",
            decimal(*size as u64).as_str(),
            "]",
        ),
        Type::Own(inner) => concat3("Own<", type_label(inner).as_str(), ">"),
        Type::RawPtr(inner) => concat3("RawPtr<", type_label(inner).as_str(), ">"),
        Type::Shared(inner) => concat3("Shared<", type_label(inner).as_str(), ">"),
        Type::Atomic(scalar) => scalar.source_name().to_owned(),
        Type::Function { params, ret } => concat5(
            "FnOnce<",
            params_label(params).as_str(),
            ", ",
            type_label(ret).as_str(),
            ">",
        ),
        Type::BorrowedFunction { kind, params, ret } => {
            let capability = match kind {
                BorrowedCallableKind::Fn => "Fn",
                BorrowedCallableKind::FnMut => "FnMut",
            };
            concat5(
                concat2(capability, "<").as_str(),
                params_label(params).as_str(),
                ", ",
                type_label(ret).as_str(),
                ">",
            )
        },
        Type::Tuple(elements) => {
            proof {
                assert(types_view(elements@).len() == elements@.len());
            }
            if elements.len() == 0 {
                "()".to_owned()
            } else {
                let mut label = append_labels("(".to_owned(), elements);
                label.append(")");
                label
            }
        },
    }
}

fn params_label(params: &Vec<Type>) -> (label: String)
    ensures
        label@ == spelled_params(types_view(params@)),
    decreases params, 1nat,
{
    proof {
        assert(types_view(params@).len() == params@.len());
    }
    if params.len() == 0 {
        "()".to_owned()
    } else if params.len() == 1 {
        assert(types_view(params@)[0] == params[0]@);
        match &params[0] {
            Type::Tuple(_) => concat3("(", type_label(&params[0]).as_str(), ",)"),
            _ => type_label(&params[0]),
        }
    } else {
        let mut label = append_labels("(".to_owned(), params);
        label.append(")");
        label
    }
}

fn append_labels(start: String, types: &Vec<Type>) -> (text: String)
    ensures
        text@ == spelled_list(start@, types_view(types@), 0),
    decreases types, 0nat,
{
    let ghost views = types_view(types@);
    let mut text = start;
    let mut i: usize = 0;
    while i < types.len()
        invariant
            i <= types.len(),
            views == types_view(types@),
            spelled_list(text@, views, i as int) == spelled_list(start@, views, 0),
        decreases types.len() - i,
    {
        assert(views[i as int] == types[i as int]@);
        if i > 0 {
            text.append(", ");
        }
        text.append(type_label(&types[i]).as_str());
        i += 1;
    }
    text
}

/// A type whose locals are moved on use also has cleanup to run.
pub proof fn moved_types_are_dropped(ty: TypeView)
    ensures
        moves_on_use(ty) ==> has_drop_glue(ty),
{
}

} // verus!
