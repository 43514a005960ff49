//! The structural text of types in diagnostics, as `Debug` formatting lays it
//! out.

use vstd::prelude::*;

use crate::atomic::AtomicScalar;
use crate::text::{concat3, decimal, decimal_text};
use crate::types::{types_view, BorrowedCallableKind, Mutability, Type, TypeView};

verus! {

/// A string in double quotes with special characters escaped, as `str`'s
/// `Debug` formatting writes it.
pub uninterp spec fn quoted_text(text: Seq<char>) -> Seq<char>;

/// Quotes a string.
///
/// Trusted: formatting a `str` with `{:?}` gives a text that depends on the
/// characters of the string alone.
#[verifier::external_body]
pub(crate) fn quoted(text: &str) -> (result: String)
    ensures
        result@ == quoted_text(text@),
{
    format!("{:?}", text)
}

pub open spec fn scalar_debug(scalar: AtomicScalar) -> Seq<char> {
    match scalar {
        AtomicScalar::Bool => "Bool"@,
        AtomicScalar::I32 => "I32"@,
        AtomicScalar::U32 => "U32"@,
        AtomicScalar::I64 => "I64"@,
        AtomicScalar::U64 => "U64"@,
        AtomicScalar::Usize => "Usize"@,
    }
}

fn scalar_debug_text(scalar: AtomicScalar) -> (text: &'static str)
    ensures
        text@ == scalar_debug(scalar),
{
    match scalar {
        AtomicScalar::Bool => "Bool",
        AtomicScalar::I32 => "I32",
        AtomicScalar::U32 => "U32",
        AtomicScalar::I64 => "I64",
        AtomicScalar::U64 => "U64",
        AtomicScalar::Usize => "Usize",
    }
}

pub open spec fn mutability_debug(mutability: Mutability) -> Seq<char> {
    match mutability {
        Mutability::Immutable => "Immutable"@,
        Mutability::Mutable => "Mutable"@,
    }
}

pub open spec fn callable_kind_debug(kind: BorrowedCallableKind) -> Seq<char> {
    match kind {
        BorrowedCallableKind::Fn => "Fn"@,
        BorrowedCallableKind::FnMut => "FnMut"@,
    }
}

/// The structural text of a type.
pub open spec fn type_debug(ty: TypeView) -> Seq<char>
    decreases ty, 0nat,
{
    match ty {
        TypeView::I8 => "I8"@,
        TypeView::I32 => "I32"@,
        TypeView::I64 => "I64"@,
        TypeView::U8 => "U8"@,
        TypeView::U32 => "U32"@,
        TypeView::U64 => "U64"@,
        TypeView::Usize => "Usize"@,
        TypeView::F32 => "F32"@,
        TypeView::F64 => "F64"@,
        TypeView::Bool => "Bool"@,
        TypeView::Char => "Char"@,
        TypeView::Str => "Str"@,
        TypeView::String => "String"@,
        TypeView::Void => "Void"@,
        TypeView::Named(name) => "Named("@ + quoted_text(name) + ")"@,
        TypeView::Enum(name) => "Enum("@ + quoted_text(name) + ")"@,
        TypeView::Param(name) => "Param("@ + quoted_text(name) + ")"@,
        TypeView::App { base, args } => "App { base: "@ + quoted_text(base) + ", args: "@
            + type_list_debug(""@, args, 0) + " }"@,
        TypeView::Ref(inner, mutability) => "Ref("@ + type_debug(*inner) + ", "@
            + mutability_debug(mutability) + ")"@,
        TypeView::Array(inner, len) => "Array("@ + type_debug(*inner) + ", "@ + decimal_text(
            len as nat,
        ) + ")"@,
        TypeView::Own(inner) => "Own("@ + type_debug(*inner) + ")"@,
        TypeView::RawPtr(inner) => "RawPtr("@ + type_debug(*inner) + ")"@,
        TypeView::Shared(inner) => "Shared("@ + type_debug(*inner) + ")"@,
        TypeView::Atomic(scalar) => "Atomic("@ + scalar_debug(scalar) + ")"@,
        TypeView::Function { params, ret } => "Function { params: "@ + type_list_debug(
            ""@,
            params,
            0,
        ) + ", ret: "@ + type_debug(*ret) + " }"@,
        TypeView::BorrowedFunction { kind, params, ret } => "BorrowedFunction { kind: "@
            + callable_kind_debug(kind) + ", params: "@ + type_list_debug(""@, params, 0)
            + ", ret: "@ + type_debug(*ret) + " }"@,
        TypeView::Tuple(elements) => "Tuple("@ + type_list_debug(""@, elements, 0) + ")"@,
    }
}

/// The text of a bracketed list of types from position `i` on, after `text`.
pub open spec fn type_list_debug(text: Seq<char>, types: Seq<TypeView>, i: int) -> Seq<char>
    decreases types, types.len() - i,
{
    if i < 0 || i > types.len() {
        text
    } else {
        let opened = if i == 0 {
            text + "["@
        } else {
            text
        };
        if i == types.len() {
            opened + "]"@
        } else {
            let separated = if i == 0 {
                opened
            } else {
                opened + ", "@
            };
            type_list_debug(separated + type_debug(types[i]), types, i + 1)
        }
    }
}

/// Renders a type structurally.
pub fn debug_type(ty: &Type) -> (text: String)
    ensures
        text@ == type_debug(ty@),
    decreases ty, 0nat,
{
    match ty {
        Type::I8 => "I8".to_owned(),
        Type::I32 => "I32".to_owned(),
        Type::I64 => "I64".to_owned(),
        Type::U8 => "U8".to_owned(),
        Type::U32 => "U32".to_owned(),
        Type::U64 => "U64".to_owned(),
        Type::Usize => "Usize".to_owned(),
        Type::F32 => "F32".to_owned(),
        Type::F64 => "F64".to_owned(),
        Type::Bool => "Bool".to_owned(),
        Type::Char => "Char".to_owned(),
        Type::Str => "Str".to_owned(),
        Type::String => "String".to_owned(),
        Type::Void => "Void".to_owned(),
        Type::Named(name) => concat3("Named(", quoted(name.as_str()).as_str(), ")"),
        Type::Enum(name) => concat3("Enum(", quoted(name.as_str()).as_str(), ")"),
        Type::Param(name) => concat3("Param(", quoted(name.as_str()).as_str(), ")"),
        Type::App { base, args } => {
            let mut text = concat3("App { base: ", quoted(base.as_str()).as_str(), ", args: ");
            text.append(debug_types(args).as_str());
            text.append(" }");
            text
        },
        Type::Ref(inner, mutability) => {
            let mut text = concat3("Ref(", debug_type(inner).as_str(), ", ");
            match mutability {
                Mutability::Immutable => {
                    text.append("Immutable");
                },
                Mutability::Mutable => {
                    text.append("Mutable");
                },
            }
            text.append(")");
            text
        },
        Type::Array(inner, len) => {
            let mut text = concat3("Array(", debug_type(inner).as_str(), ", ");
            text.append(decimal(*len as u64).as_str());
            text.append(")");
            text
        },
        Type::Own(inner) => concat3("Own(", debug_type(inner).as_str(), ")"),
        Type::RawPtr(inner) => concat3("RawPtr(", debug_type(inner).as_str(), ")"),
        Type::Shared(inner) => concat3("Shared(", debug_type(inner).as_str(), ")"),
        Type::Atomic(scalar) => concat3("Atomic(", scalar_debug_text(*scalar), ")"),
        Type::Function { params, ret } => {
            let mut text = concat3("Function { params: ", debug_types(params).as_str(), ", ret: ");
            text.append(debug_type(ret).as_str());
            text.append(" }");
            text
        },
        Type::BorrowedFunction { kind, params, ret } => {
            let kind_text = match kind {
                BorrowedCallableKind::Fn => "Fn",
                BorrowedCallableKind::FnMut => "FnMut",
            };
            let mut text = concat3("BorrowedFunction { kind: ", kind_text, ", params: ");
            text.append(debug_types(params).as_str());
            text.append(", ret: ");
            text.append(debug_type(ret).as_str());
            text.append(" }");
            text
        },
        Type::Tuple(elements) => concat3("Tuple(", debug_types(elements).as_str(), ")"),
    }
}

/// Renders a list of types structurally.
pub fn debug_types(types: &Vec<Type>) -> (text: String)
    ensures
        text@ == type_list_debug(""@, types_view(types@), 0),
    decreases types, 0nat,
{
    let ghost views = types_view(types@);
    let mut text = "".to_owned();
    text.append("[");
    if types.len() == 0 {
        text.append("]");
        return text;
    }
    assert(views[0] == types[0]@);
    text.append(debug_type(&types[0]).as_str());
    let mut i: usize = 1;
    while i < types.len()
        invariant
            1 <= i <= types.len(),
            views == types_view(types@),
            type_list_debug(text@, views, i as int) == type_list_debug(""@, views, 0),
        decreases types.len() - i,
    {
        assert(views[i as int] == types[i as int]@);
        text.append(", ");
        text.append(debug_type(&types[i]).as_str());
        i += 1;
    }
    text.append("]");
    text
}

} // verus!
