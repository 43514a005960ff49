//! What types are called.

use vstd::prelude::*;

use crate::atomic::AtomicScalar;
use crate::closure_analysis::label_text;
use crate::debug_text::scalar_debug;
use crate::lower::kinds::spelled;
use crate::types::{named_builtin, TypeView};

verus! {

/// Whether a type is built in under a name of its own.
pub open spec fn has_a_name(ty: TypeView) -> bool {
    ty is I8 || ty is I32 || ty is I64 || ty is U8 || ty is U32 || ty is U64 || ty is Usize
        || ty is Char || ty is F32 || ty is F64 || ty is Bool || ty is Str || ty is String
        || ty is Atomic
}

proof fn builtin_names_differ()
    ensures
        "i8"@.len() == 2 && "i8"@[0] == 'i' && "i8"@[1] == '8',
        "i32"@.len() == 3 && "i32"@[0] == 'i' && "i32"@[1] == '3',
        "i64"@.len() == 3 && "i64"@[0] == 'i' && "i64"@[1] == '6',
        "u8"@.len() == 2 && "u8"@[0] == 'u' && "u8"@[1] == '8',
        "u32"@.len() == 3 && "u32"@[0] == 'u' && "u32"@[1] == '3',
        "u64"@.len() == 3 && "u64"@[0] == 'u' && "u64"@[1] == '6',
        "usize"@.len() == 5 && "usize"@[0] == 'u' && "usize"@[1] == 's',
        "char"@.len() == 4 && "char"@[0] == 'c' && "char"@[1] == 'h',
        "f32"@.len() == 3 && "f32"@[0] == 'f' && "f32"@[1] == '3',
        "f64"@.len() == 3 && "f64"@[0] == 'f' && "f64"@[1] == '6',
        "bool"@.len() == 4 && "bool"@[0] == 'b' && "bool"@[1] == 'o',
        "str"@.len() == 3 && "str"@[0] == 's' && "str"@[1] == 't',
        "String"@.len() == 6 && "String"@[0] == 'S' && "String"@[1] == 't',
        "AtomicBool"@.len() == 10 && "AtomicBool"@[0] == 'A' && "AtomicBool"@[1] == 't' && "AtomicBool"@[6] == 'B' && "AtomicBool"@[7] == 'o',
        "AtomicI32"@.len() == 9 && "AtomicI32"@[0] == 'A' && "AtomicI32"@[1] == 't' && "AtomicI32"@[6] == 'I' && "AtomicI32"@[7] == '3',
        "AtomicU32"@.len() == 9 && "AtomicU32"@[0] == 'A' && "AtomicU32"@[1] == 't' && "AtomicU32"@[6] == 'U' && "AtomicU32"@[7] == '3',
        "AtomicI64"@.len() == 9 && "AtomicI64"@[0] == 'A' && "AtomicI64"@[1] == 't' && "AtomicI64"@[6] == 'I' && "AtomicI64"@[7] == '6',
        "AtomicU64"@.len() == 9 && "AtomicU64"@[0] == 'A' && "AtomicU64"@[1] == 't' && "AtomicU64"@[6] == 'U' && "AtomicU64"@[7] == '6',
        "AtomicUsize"@.len() == 11 && "AtomicUsize"@[0] == 'A' && "AtomicUsize"@[1] == 't' && "AtomicUsize"@[6] == 'U' && "AtomicUsize"@[7] == 's',
        "i"@.len() == 1 && "i"@[0] == 'i',
        "u"@.len() == 1 && "u"@[0] == 'u',
        "c"@.len() == 1 && "c"@[0] == 'c',
        "f"@.len() == 1 && "f"@[0] == 'f',
        "b"@.len() == 1 && "b"@[0] == 'b',
{
    reveal_strlit("i8");
    reveal_strlit("i32");
    reveal_strlit("i64");
    reveal_strlit("u8");
    reveal_strlit("u32");
    reveal_strlit("u64");
    reveal_strlit("usize");
    reveal_strlit("char");
    reveal_strlit("f32");
    reveal_strlit("f64");
    reveal_strlit("bool");
    reveal_strlit("str");
    reveal_strlit("String");
    reveal_strlit("AtomicBool");
    reveal_strlit("AtomicI32");
    reveal_strlit("AtomicU32");
    reveal_strlit("AtomicI64");
    reveal_strlit("AtomicU64");
    reveal_strlit("AtomicUsize");
    reveal_strlit("i");
    reveal_strlit("u");
    reveal_strlit("c");
    reveal_strlit("f");
    reveal_strlit("b");
}

/// Diagnostics call a builtin type as the source writes it, and what they call it is
/// read back as that type. The only other name of a builtin type is its first letter.
pub proof fn builtin_types_are_called_as_written(name: Seq<char>, ty: TypeView)
    ensures
        named_builtin(name) == Some(ty) ==> has_a_name(ty) && (spelled(ty) == name || (name.len()
            == 1 && name[0] == spelled(ty)[0])),
        has_a_name(ty) ==> named_builtin(spelled(ty)) == Some(ty) && label_text(ty) == spelled(ty),
{
    builtin_names_differ();
}

/// An atomic type is called after its scalar in the source and in renderings.
pub proof fn atomics_are_called_after_their_scalar(scalar: AtomicScalar)
    ensures
        scalar.name() == "Atomic"@ + scalar_debug(scalar),
{
    reveal_strlit("Atomic");
    reveal_strlit("Bool");
    reveal_strlit("AtomicBool");
    reveal_strlit("I32");
    reveal_strlit("AtomicI32");
    reveal_strlit("U32");
    reveal_strlit("AtomicU32");
    reveal_strlit("I64");
    reveal_strlit("AtomicI64");
    reveal_strlit("U64");
    reveal_strlit("AtomicU64");
    reveal_strlit("Usize");
    reveal_strlit("AtomicUsize");
    assert("Atomic"@ + "Bool"@ =~= "AtomicBool"@);
    assert("Atomic"@ + "I32"@ =~= "AtomicI32"@);
    assert("Atomic"@ + "U32"@ =~= "AtomicU32"@);
    assert("Atomic"@ + "I64"@ =~= "AtomicI64"@);
    assert("Atomic"@ + "U64"@ =~= "AtomicU64"@);
    assert("Atomic"@ + "Usize"@ =~= "AtomicUsize"@);
}

} // verus!
