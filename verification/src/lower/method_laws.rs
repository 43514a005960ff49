//! Which code a name stands for.

use vstd::prelude::*;

use crate::ast::{Expr, Literal};
use crate::diag::Span;
use crate::lower::infer::named_struct;
use crate::lower::methods::{
    is_file, is_text, providers_from, settled, spelled_builtin, wanted_reference, BuiltinMethod,
    CallRouteView, MethodCallView, MethodStepView, StaticBuiltin,
};
use crate::lower::state::LowerState;
use crate::mir::RvalueView;
use crate::resolver::{MethodInfo, SelfKind};
use crate::table::{value_of, NameMap};
use crate::text::{begins_with, finishes_with};
use crate::types::{Mutability, TypeView};

verus! {

/// The name under which a method that the compiler lowers itself is called.
pub open spec fn is_called(builtin: BuiltinMethod, method: Seq<char>) -> bool {
    match builtin {
        BuiltinMethod::VecLen | BuiltinMethod::StringLen | BuiltinMethod::ArrayLen => method
            == "len"@,
        BuiltinMethod::StringAsStr => method == "as_str"@,
        BuiltinMethod::VecPush => method == "push"@,
        BuiltinMethod::VecPop => method == "pop"@,
        BuiltinMethod::VecGet => method == "get"@,
        BuiltinMethod::MapAdd => method == "add"@,
        BuiltinMethod::MapUpdate => method == "update"@,
        BuiltinMethod::MapDel => method == "del"@,
        BuiltinMethod::MapGet => method == "get"@,
        BuiltinMethod::MapHas => method == "has"@,
        BuiltinMethod::MapKeys => method == "keys"@,
        BuiltinMethod::MapVals => method == "vals"@,
        BuiltinMethod::FileReadToString => method == "read_to_string"@,
        BuiltinMethod::StringConcat => method == "concat"@,
        BuiltinMethod::StringSlice => method == "slice"@,
        BuiltinMethod::StringTrim => method == "trim"@,
        BuiltinMethod::StringSplit => method == "split"@,
        BuiltinMethod::StringStartsWith => method == "starts_with"@,
        BuiltinMethod::StringEndsWith => method == "ends_with"@,
        BuiltinMethod::OwnIntoRaw => method == "into_raw"@,
        BuiltinMethod::FileWriteString => method == "write_string"@ || method == "write"@,
        BuiltinMethod::FileClose => method == "close"@,
        BuiltinMethod::StringClone | BuiltinMethod::SharedClone => method == "clone"@,
    }
}

proof fn method_names_differ()
    ensures
        "add"@.len() == 3 && "add"@[0] == 'a' && "add"@[1] == 'd',
        "as_str"@.len() == 6 && "as_str"@[0] == 'a' && "as_str"@[1] == 's',
        "clone"@.len() == 5 && "clone"@[0] == 'c' && "clone"@[1] == 'l' && "clone"@[3] == 'n',
        "close"@.len() == 5 && "close"@[0] == 'c' && "close"@[1] == 'l' && "close"@[3] == 's',
        "concat"@.len() == 6 && "concat"@[0] == 'c' && "concat"@[1] == 'o',
        "del"@.len() == 3 && "del"@[0] == 'd' && "del"@[1] == 'e',
        "ends_with"@.len() == 9 && "ends_with"@[0] == 'e' && "ends_with"@[1] == 'n',
        "get"@.len() == 3 && "get"@[0] == 'g' && "get"@[1] == 'e',
        "has"@.len() == 3 && "has"@[0] == 'h' && "has"@[1] == 'a',
        "into_raw"@.len() == 8 && "into_raw"@[0] == 'i' && "into_raw"@[1] == 'n',
        "keys"@.len() == 4 && "keys"@[0] == 'k' && "keys"@[1] == 'e',
        "len"@.len() == 3 && "len"@[0] == 'l' && "len"@[1] == 'e',
        "pop"@.len() == 3 && "pop"@[0] == 'p' && "pop"@[1] == 'o',
        "push"@.len() == 4 && "push"@[0] == 'p' && "push"@[1] == 'u',
        "read_to_string"@.len() == 14 && "read_to_string"@[0] == 'r' && "read_to_string"@[1] == 'e',
        "slice"@.len() == 5 && "slice"@[0] == 's' && "slice"@[1] == 'l',
        "split"@.len() == 5 && "split"@[0] == 's' && "split"@[1] == 'p',
        "starts_with"@.len() == 11 && "starts_with"@[0] == 's' && "starts_with"@[1] == 't',
        "trim"@.len() == 4 && "trim"@[0] == 't' && "trim"@[1] == 'r',
        "update"@.len() == 6 && "update"@[0] == 'u' && "update"@[1] == 'p',
        "vals"@.len() == 4 && "vals"@[0] == 'v' && "vals"@[1] == 'a',
        "write"@.len() == 5 && "write"@[0] == 'w' && "write"@[1] == 'r',
        "write_string"@.len() == 12 && "write_string"@[0] == 'w' && "write_string"@[1] == 'r',
{
    reveal_strlit("add");
    reveal_strlit("as_str");
    reveal_strlit("clone");
    reveal_strlit("close");
    reveal_strlit("concat");
    reveal_strlit("del");
    reveal_strlit("ends_with");
    reveal_strlit("get");
    reveal_strlit("has");
    reveal_strlit("into_raw");
    reveal_strlit("keys");
    reveal_strlit("len");
    reveal_strlit("pop");
    reveal_strlit("push");
    reveal_strlit("read_to_string");
    reveal_strlit("slice");
    reveal_strlit("split");
    reveal_strlit("starts_with");
    reveal_strlit("trim");
    reveal_strlit("update");
    reveal_strlit("vals");
    reveal_strlit("write");
    reveal_strlit("write_string");
}

/// A method that the compiler lowers itself is tried only under its own name,
/// written as a method call or as a call of a field.
pub proof fn builtins_are_tried_under_their_names(
    state: LowerState,
    receiver: Expr,
    method: Seq<char>,
    args: Seq<Expr>,
    span: Span,
    k: int,
)
    ensures
        state.plain_method(receiver, method, args.len(), span).1 matches MethodStepView::Builtins {
            tries,
            ..
        } ==> 0 <= k < tries.len() ==> is_called(tries[k], method),
        state.other_field_call(receiver, method, args, span).1 matches CallRouteView::Method(
            MethodStepView::Builtins { tries, .. },
        ) ==> 0 <= k < tries.len() ==> is_called(tries[k], method),
{
    reveal(LowerState::plain_method);
    reveal(LowerState::struct_method);
    reveal(LowerState::owned_cell_method);
}

/// Under its name a method that the compiler lowers itself is always tried: a
/// method of files on a file only, a copy on shared values and on text only, and
/// a method without parameters without arguments only.
pub proof fn builtin_names_reach_their_method(
    state: LowerState,
    receiver: Expr,
    method: Seq<char>,
    args: nat,
    span: Span,
    builtin: BuiltinMethod,
)
    requires
        is_called(builtin, method),
        method == "write"@ || method == "close"@ ==> is_file(state.inferred(receiver)),
        method == "len"@ || method == "into_raw"@ || method == "clone"@ ==> args == 0,
        builtin is SharedClone ==> (state.inferred(receiver) matches Some(ty) && ty is Shared),
        builtin is StringClone ==> (state.inferred(receiver) matches Some(ty) && is_text(ty)),
    ensures
        ({
            let (after, step) = state.plain_method(receiver, method, args, span);
            &&& after == state
            &&& step matches MethodStepView::Builtins { tries, .. } && tries.contains(builtin)
        }),
{
    reveal(LowerState::plain_method);
    method_names_differ();
    let tries = state.plain_method(receiver, method, args, span).1->Builtins_tries;
    if method == "len"@ {
        assert(tries[0] == BuiltinMethod::VecLen && tries[1] == BuiltinMethod::StringLen
            && tries[2] == BuiltinMethod::ArrayLen);
    } else if method == "get"@ {
        assert(tries[0] == BuiltinMethod::VecGet && tries[1] == BuiltinMethod::MapGet);
    } else {
        assert(tries[0] == builtin);
    }
}

/// Whether the interface at position `k` provides a method.
pub open spec fn provides(
    interfaces: Seq<(Seq<char>, NameMap<MethodInfo>)>,
    method: Seq<char>,
    k: int,
) -> bool {
    0 <= k < interfaces.len() && value_of(interfaces[k].1@, method) is Some
}

proof fn providers_are_found(
    interfaces: Seq<(Seq<char>, NameMap<MethodInfo>)>,
    method: Seq<char>,
    i: int,
)
    requires
        0 <= i,
    ensures
        forall|k: int|
            i <= k && #[trigger] provides(interfaces, method, k) ==> providers_from(
                interfaces,
                method,
                i,
            ).contains(k),
        forall|j: int|
            0 <= j < providers_from(interfaces, method, i).len() ==> provides(
                interfaces,
                method,
                #[trigger] providers_from(interfaces, method, i)[j],
            ) && i <= providers_from(interfaces, method, i)[j],
        forall|a: int, b: int|
            0 <= a < b < providers_from(interfaces, method, i).len()
                ==> #[trigger] providers_from(interfaces, method, i)[a]
                != #[trigger] providers_from(interfaces, method, i)[b],
    decreases interfaces.len() - i,
{
    if i < interfaces.len() {
        providers_are_found(interfaces, method, i + 1);
        let rest = providers_from(interfaces, method, i + 1);
        let all = providers_from(interfaces, method, i);
        if provides(interfaces, method, i) {
            assert(all == seq![i] + rest);
            assert(all[0] == i);
            assert forall|j: int| 1 <= j < all.len() implies #[trigger] all[j] == rest[j - 1] by {
            }
            assert forall|k: int| i <= k && #[trigger] provides(
                interfaces,
                method,
                k,
            ) implies all.contains(k) by {
                if k > i {
                    let j = choose|j: int| 0 <= j < rest.len() && rest[j] == k;
                    assert(rest.contains(k));
                    assert(all[j + 1] == k);
                }
            }
        } else {
            assert(all == rest);
        }
    }
}

/// A user method is called where it is declared: on the struct itself, or in the
/// only one of its interfaces that provides it. In these cases it is always
/// found, and whoever finds it leaves the state as it is.
pub proof fn user_methods_are_called_where_declared(
    state: LowerState,
    receiver: Expr,
    method: Seq<char>,
    span: Span,
    ty: TypeView,
    structure: Seq<char>,
    k: int,
)
    requires
        state.inferred(receiver) == Some(ty),
        named_struct(ty) == Some(structure),
    ensures
        ({
            let (after, step) = state.struct_method(receiver, method, span);
            let own = state.inherent_method(structure, method);
            let interfaces = state.interfaces_of(structure);
            &&& own matches Some(info) ==> after == state && step == MethodStepView::Receiver(
                MethodCallView {
                    function: info.function_name@,
                    self_kind: info.self_kind,
                    receiver_type: ty,
                },
            )
            &&& own is None && provides(interfaces, method, k) && (forall|j: int|
                j != k ==> !#[trigger] provides(interfaces, method, j)) ==> {
                let info = value_of(interfaces[k].1@, method)->Some_0;
                after == state && step == MethodStepView::Receiver(
                    MethodCallView {
                        function: info.function_name@,
                        self_kind: info.self_kind,
                        receiver_type: ty,
                    },
                )
            }
            &&& own is None && (exists|j: int|
                j != k && #[trigger] provides(interfaces, method, j)) && provides(
                interfaces,
                method,
                k,
            ) ==> step == MethodStepView::Done(None) && after.diagnostics.len()
                == state.diagnostics.len() + 1
            &&& own is None && (forall|j: int| !#[trigger] provides(interfaces, method, j))
                ==> step == MethodStepView::Done(None) && after.diagnostics.len()
                == state.diagnostics.len() + 1
        }),
{
    reveal(LowerState::struct_method);
    let interfaces = state.interfaces_of(structure);
    let found = providers_from(interfaces, method, 0);
    providers_are_found(interfaces, method, 0);
    if provides(interfaces, method, k) {
        assert(found.contains(k));
        let a = choose|a: int| 0 <= a < found.len() && found[a] == k;
        if forall|j: int| j != k ==> !#[trigger] provides(interfaces, method, j) {
            assert(provides(interfaces, method, found[0]));
            assert(found[0] == k);
            if found.len() > 1 {
                assert(provides(interfaces, method, found[1]));
                assert(found[1] == k);
            }
        }
        if exists|j: int| j != k && #[trigger] provides(interfaces, method, j) {
            let j = choose|j: int| j != k && #[trigger] provides(interfaces, method, j);
            assert(found.contains(j));
            let b = choose|b: int| 0 <= b < found.len() && found[b] == j;
            assert(a != b);
        }
    }
    if forall|j: int| !#[trigger] provides(interfaces, method, j) {
        if found.len() > 0 {
            assert(provides(interfaces, method, found[0]));
        }
    }
}

/// A receiver reaches its method as the method declares it: one that is no
/// reference yet is lent exclusively to a method that changes it, shared with one
/// that reads it, and given to one that takes it.
pub proof fn receivers_are_passed_as_declared(call: MethodCallView)
    ensures
        wanted_reference(call) == Some(Mutability::Mutable) <==> call.self_kind
            == SelfKind::MutRef && !(call.receiver_type is Ref),
        wanted_reference(call) == Some(Mutability::Immutable) <==> call.self_kind
            == SelfKind::Ref && !(call.receiver_type is Ref),
        wanted_reference(call) is None <==> call.self_kind == SelfKind::ByValue
            || call.receiver_type is Ref,
{
}

/// The first try that gives a value ends a method call with that value; one that
/// gives none leaves the call to the tries after it.
pub proof fn the_first_value_ends_a_method_call(
    state: LowerState,
    tries: Seq<BuiltinMethod>,
    then_struct: bool,
    receiver: Expr,
    method: Seq<char>,
    args: Seq<Expr>,
    span: Span,
    outcome: Option<Option<RvalueView>>,
    value: RvalueView,
)
    ensures
        ({
            let step = MethodStepView::Builtins { tries, then_struct };
            let (after, next) = state.resuming_method(step, receiver, method, args, span, outcome);
            &&& outcome == Some(Some(value)) ==> after == state && next == MethodStepView::Done(
                Some(value),
            )
            &&& settled(outcome) is None && tries.len() > 1 ==> after == state && (
            next matches MethodStepView::Builtins { tries: left, then_struct: then } && then
                == then_struct && seq![tries[0]] + left == tries)
        }),
{
    if tries.len() > 1 {
        assert(seq![tries[0]] + tries.skip(1) =~= tries);
    }
}

/// A name has the type of the local that it stands for, and a reference the type
/// of a reference to what its target has. Literals show their type.
pub proof fn types_show_in_the_source(state: LowerState, expr: Expr)
    ensures
        match expr {
            Expr::Ident(name, _) => value_of(state.bindings, name.0@) matches Some(local)
                ==> state.inferred(expr) == state.local_type(local),
            Expr::Ref { expr: target, mutability, .. } => match state.inferred(expr) {
                Some(TypeView::Ref(inner, m)) => m == mutability && state.inferred(*target)
                    == Some(*inner),
                Some(_) => false,
                None => state.inferred(*target) is None,
            },
            Expr::FieldAccess { base, field, .. } => state.inferred(expr) matches Some(ty)
                ==> state.inferred(*base) is Some && exists|structure: Seq<char>|
                named_struct(state.inferred(*base)->Some_0) == Some(structure)
                    && #[trigger] state.resolver.field_type(structure, field.0@) == Some(ty),
            Expr::Lit(Literal::Int(_), _) => state.inferred(expr) == Some(TypeView::I32),
            Expr::Lit(Literal::Bool(_), _) => state.inferred(expr) == Some(TypeView::Bool),
            Expr::Lit(Literal::Char(_), _) => state.inferred(expr) == Some(TypeView::Char),
            Expr::Lit(Literal::Str(_), _) => state.inferred(expr) == Some(TypeView::Str),
            _ => true,
        },
{
    if let Expr::FieldAccess { base, field, .. } = expr {
        if state.inferred(expr) is Some {
            let outer = state.inferred(*base)->Some_0;
            let structure = named_struct(outer)->Some_0;
            assert(state.resolver.field_type(structure, field.0@) == state.inferred(expr));
        }
    }
}

/// The name of a printing call: the stream by its first letter, the line break by
/// its last ones.
pub open spec fn printer_name(newline: bool, to_stderr: bool, qualified: bool) -> Seq<char> {
    (if qualified {
        "std::"@
    } else {
        ""@
    }) + (if to_stderr {
        "e"@
    } else {
        ""@
    }) + "print"@ + (if newline {
        "ln"@
    } else {
        ""@
    })
}

/// The names under which a static call that the compiler lowers itself is called
/// wherever it is called from.
pub open spec fn is_spelled(builtin: StaticBuiltin, name: Seq<char>) -> bool {
    match builtin {
        StaticBuiltin::OwnNew => name == "Own::new"@,
        StaticBuiltin::OwnFromRaw => name == "Own::from_raw"@,
        StaticBuiltin::SharedNew => name == "Shared::new"@,
        StaticBuiltin::TerminalStdout => name == "Terminal::stdout"@,
        StaticBuiltin::VecNew => name == "Vec::new"@,
        StaticBuiltin::VecWithCapacity => name == "Vec::with_capacity"@,
        StaticBuiltin::MapNew => name == "Map::new"@,
        StaticBuiltin::MapWithCapacity => name == "Map::with_capacity"@,
        StaticBuiltin::StringFromStr => name == "String::from_str"@,
        StaticBuiltin::FileOpen { create: false } => name == "File::open"@,
        StaticBuiltin::FileOpen { create: true } => name == "File::create"@,
        StaticBuiltin::AtomicNew(scalar) => name == scalar.name() + "::new"@,
        StaticBuiltin::Print { newline, to_stderr } => name == printer_name(
            newline,
            to_stderr,
            false,
        ) || name == printer_name(newline, to_stderr, true),
        _ => false,
    }
}

proof fn static_names_are_put_together()
    ensures
        printer_name(false, false, false) == "print"@,
        printer_name(false, false, true) == "std::print"@,
        printer_name(false, true, false) == "eprint"@,
        printer_name(false, true, true) == "std::eprint"@,
        printer_name(true, false, false) == "println"@,
        printer_name(true, false, true) == "std::println"@,
        printer_name(true, true, false) == "eprintln"@,
        printer_name(true, true, true) == "std::eprintln"@,
        "AtomicBool"@ + "::new"@ == "AtomicBool::new"@,
        "AtomicI32"@ + "::new"@ == "AtomicI32::new"@,
        "AtomicU32"@ + "::new"@ == "AtomicU32::new"@,
        "AtomicI64"@ + "::new"@ == "AtomicI64::new"@,
        "AtomicU64"@ + "::new"@ == "AtomicU64::new"@,
        "AtomicUsize"@ + "::new"@ == "AtomicUsize::new"@,
{
    reveal_strlit("Own::new");
    reveal_strlit("Own::from_raw");
    reveal_strlit("Shared::new");
    reveal_strlit("Terminal::stdout");
    reveal_strlit("Vec::new");
    reveal_strlit("Vec::with_capacity");
    reveal_strlit("Map::new");
    reveal_strlit("Map::with_capacity");
    reveal_strlit("String::from_str");
    reveal_strlit("File::open");
    reveal_strlit("File::create");
    reveal_strlit("print");
    reveal_strlit("println");
    reveal_strlit("eprint");
    reveal_strlit("eprintln");
    reveal_strlit("std::print");
    reveal_strlit("std::println");
    reveal_strlit("std::eprint");
    reveal_strlit("std::eprintln");
    reveal_strlit("std::");
    reveal_strlit("e");
    reveal_strlit("ln");
    reveal_strlit("");
    reveal_strlit("::new");
    reveal_strlit("Atomic");
    reveal_strlit("AtomicBool");
    reveal_strlit("AtomicI32");
    reveal_strlit("AtomicU32");
    reveal_strlit("AtomicI64");
    reveal_strlit("AtomicU64");
    reveal_strlit("AtomicUsize");
    reveal_strlit("AtomicBool::new");
    reveal_strlit("AtomicI32::new");
    reveal_strlit("AtomicU32::new");
    reveal_strlit("AtomicI64::new");
    reveal_strlit("AtomicU64::new");
    reveal_strlit("AtomicUsize::new");
    assert(printer_name(false, false, false) =~= "print"@);
    assert(printer_name(false, false, true) =~= "std::print"@);
    assert(printer_name(false, true, false) =~= "eprint"@);
    assert(printer_name(false, true, true) =~= "std::eprint"@);
    assert(printer_name(true, false, false) =~= "println"@);
    assert(printer_name(true, false, true) =~= "std::println"@);
    assert(printer_name(true, true, false) =~= "eprintln"@);
    assert(printer_name(true, true, true) =~= "std::eprintln"@);
    assert("AtomicBool"@ + "::new"@ =~= "AtomicBool::new"@);
    assert("AtomicI32"@ + "::new"@ =~= "AtomicI32::new"@);
    assert("AtomicU32"@ + "::new"@ =~= "AtomicU32::new"@);
    assert("AtomicI64"@ + "::new"@ =~= "AtomicI64::new"@);
    assert("AtomicU64"@ + "::new"@ =~= "AtomicU64::new"@);
    assert("AtomicUsize"@ + "::new"@ =~= "AtomicUsize::new"@);
}

proof fn static_names_differ()
    ensures
        "Own::new"@.len() == 8 && "Own::new"@[0] == 'O' && "Own::new"@[1] == 'w' && "Own::new"@[5] == 'n' && "Own::new"@[6] == 'e' && "Own::new"@[7] == 'w',
        "Own::from_raw"@.len() == 13 && "Own::from_raw"@[0] == 'O' && "Own::from_raw"@[1] == 'w' && "Own::from_raw"@[5] == 'f' && "Own::from_raw"@[6] == 'r' && "Own::from_raw"@[7] == 'o',
        "Shared::new"@.len() == 11 && "Shared::new"@[0] == 'S' && "Shared::new"@[1] == 'h' && "Shared::new"@[5] == 'd' && "Shared::new"@[6] == ':' && "Shared::new"@[7] == ':',
        "Terminal::stdout"@.len() == 16 && "Terminal::stdout"@[0] == 'T' && "Terminal::stdout"@[1] == 'e' && "Terminal::stdout"@[5] == 'n' && "Terminal::stdout"@[6] == 'a' && "Terminal::stdout"@[7] == 'l',
        "Vec::new"@.len() == 8 && "Vec::new"@[0] == 'V' && "Vec::new"@[1] == 'e' && "Vec::new"@[5] == 'n' && "Vec::new"@[6] == 'e' && "Vec::new"@[7] == 'w',
        "Vec::with_capacity"@.len() == 18 && "Vec::with_capacity"@[0] == 'V' && "Vec::with_capacity"@[1] == 'e' && "Vec::with_capacity"@[5] == 'w' && "Vec::with_capacity"@[6] == 'i' && "Vec::with_capacity"@[7] == 't',
        "Map::new"@.len() == 8 && "Map::new"@[0] == 'M' && "Map::new"@[1] == 'a' && "Map::new"@[5] == 'n' && "Map::new"@[6] == 'e' && "Map::new"@[7] == 'w',
        "Map::with_capacity"@.len() == 18 && "Map::with_capacity"@[0] == 'M' && "Map::with_capacity"@[1] == 'a' && "Map::with_capacity"@[5] == 'w' && "Map::with_capacity"@[6] == 'i' && "Map::with_capacity"@[7] == 't',
        "String::from_str"@.len() == 16 && "String::from_str"@[0] == 'S' && "String::from_str"@[1] == 't' && "String::from_str"@[5] == 'g' && "String::from_str"@[6] == ':' && "String::from_str"@[7] == ':',
        "File::open"@.len() == 10 && "File::open"@[0] == 'F' && "File::open"@[1] == 'i' && "File::open"@[5] == ':' && "File::open"@[6] == 'o' && "File::open"@[7] == 'p',
        "File::create"@.len() == 12 && "File::create"@[0] == 'F' && "File::create"@[1] == 'i' && "File::create"@[5] == ':' && "File::create"@[6] == 'c' && "File::create"@[7] == 'r',
        "print"@.len() == 5 && "print"@[0] == 'p' && "print"@[1] == 'r',
        "println"@.len() == 7 && "println"@[0] == 'p' && "println"@[1] == 'r' && "println"@[5] == 'l' && "println"@[6] == 'n',
        "eprint"@.len() == 6 && "eprint"@[0] == 'e' && "eprint"@[1] == 'p' && "eprint"@[5] == 't',
        "eprintln"@.len() == 8 && "eprintln"@[0] == 'e' && "eprintln"@[1] == 'p' && "eprintln"@[5] == 't' && "eprintln"@[6] == 'l' && "eprintln"@[7] == 'n',
        "std::print"@.len() == 10 && "std::print"@[0] == 's' && "std::print"@[1] == 't' && "std::print"@[5] == 'p' && "std::print"@[6] == 'r' && "std::print"@[7] == 'i',
        "std::println"@.len() == 12 && "std::println"@[0] == 's' && "std::println"@[1] == 't' && "std::println"@[5] == 'p' && "std::println"@[6] == 'r' && "std::println"@[7] == 'i',
        "std::eprint"@.len() == 11 && "std::eprint"@[0] == 's' && "std::eprint"@[1] == 't' && "std::eprint"@[5] == 'e' && "std::eprint"@[6] == 'p' && "std::eprint"@[7] == 'r',
        "std::eprintln"@.len() == 13 && "std::eprintln"@[0] == 's' && "std::eprintln"@[1] == 't' && "std::eprintln"@[5] == 'e' && "std::eprintln"@[6] == 'p' && "std::eprintln"@[7] == 'r',
        "AtomicBool::new"@.len() == 15 && "AtomicBool::new"@[0] == 'A' && "AtomicBool::new"@[1] == 't' && "AtomicBool::new"@[5] == 'c' && "AtomicBool::new"@[6] == 'B' && "AtomicBool::new"@[7] == 'o',
        "AtomicI32::new"@.len() == 14 && "AtomicI32::new"@[0] == 'A' && "AtomicI32::new"@[1] == 't' && "AtomicI32::new"@[5] == 'c' && "AtomicI32::new"@[6] == 'I' && "AtomicI32::new"@[7] == '3',
        "AtomicU32::new"@.len() == 14 && "AtomicU32::new"@[0] == 'A' && "AtomicU32::new"@[1] == 't' && "AtomicU32::new"@[5] == 'c' && "AtomicU32::new"@[6] == 'U' && "AtomicU32::new"@[7] == '3',
        "AtomicI64::new"@.len() == 14 && "AtomicI64::new"@[0] == 'A' && "AtomicI64::new"@[1] == 't' && "AtomicI64::new"@[5] == 'c' && "AtomicI64::new"@[6] == 'I' && "AtomicI64::new"@[7] == '6',
        "AtomicU64::new"@.len() == 14 && "AtomicU64::new"@[0] == 'A' && "AtomicU64::new"@[1] == 't' && "AtomicU64::new"@[5] == 'c' && "AtomicU64::new"@[6] == 'U' && "AtomicU64::new"@[7] == '6',
        "AtomicUsize::new"@.len() == 16 && "AtomicUsize::new"@[0] == 'A' && "AtomicUsize::new"@[1] == 't' && "AtomicUsize::new"@[5] == 'c' && "AtomicUsize::new"@[6] == 'U' && "AtomicUsize::new"@[7] == 's',
{
    reveal_strlit("Own::new");
    reveal_strlit("Own::from_raw");
    reveal_strlit("Shared::new");
    reveal_strlit("Terminal::stdout");
    reveal_strlit("Vec::new");
    reveal_strlit("Vec::with_capacity");
    reveal_strlit("Map::new");
    reveal_strlit("Map::with_capacity");
    reveal_strlit("String::from_str");
    reveal_strlit("File::open");
    reveal_strlit("File::create");
    reveal_strlit("print");
    reveal_strlit("println");
    reveal_strlit("eprint");
    reveal_strlit("eprintln");
    reveal_strlit("std::print");
    reveal_strlit("std::println");
    reveal_strlit("std::eprint");
    reveal_strlit("std::eprintln");
    reveal_strlit("std::");
    reveal_strlit("e");
    reveal_strlit("ln");
    reveal_strlit("");
    reveal_strlit("::new");
    reveal_strlit("Atomic");
    reveal_strlit("AtomicBool");
    reveal_strlit("AtomicI32");
    reveal_strlit("AtomicU32");
    reveal_strlit("AtomicI64");
    reveal_strlit("AtomicU64");
    reveal_strlit("AtomicUsize");
    reveal_strlit("AtomicBool::new");
    reveal_strlit("AtomicI32::new");
    reveal_strlit("AtomicU32::new");
    reveal_strlit("AtomicI64::new");
    reveal_strlit("AtomicU64::new");
    reveal_strlit("AtomicUsize::new");
}

proof fn atomic_names_begin_alike()
    ensures
        begins_with("AtomicBool::new"@, "Atomic"@) && finishes_with("AtomicBool::new"@, "::new"@),
        begins_with("AtomicI32::new"@, "Atomic"@) && finishes_with("AtomicI32::new"@, "::new"@),
        begins_with("AtomicU32::new"@, "Atomic"@) && finishes_with("AtomicU32::new"@, "::new"@),
        begins_with("AtomicI64::new"@, "Atomic"@) && finishes_with("AtomicI64::new"@, "::new"@),
        begins_with("AtomicU64::new"@, "Atomic"@) && finishes_with("AtomicU64::new"@, "::new"@),
        begins_with("AtomicUsize::new"@, "Atomic"@) && finishes_with("AtomicUsize::new"@, "::new"@),
        !begins_with("Own::new"@, "Atomic"@),
        !begins_with("Own::from_raw"@, "Atomic"@),
        !begins_with("Shared::new"@, "Atomic"@),
        !begins_with("Terminal::stdout"@, "Atomic"@),
        !begins_with("Vec::new"@, "Atomic"@),
        !begins_with("Vec::with_capacity"@, "Atomic"@),
        !begins_with("Map::new"@, "Atomic"@),
        !begins_with("Map::with_capacity"@, "Atomic"@),
        !begins_with("String::from_str"@, "Atomic"@),
        !begins_with("File::open"@, "Atomic"@),
        !begins_with("File::create"@, "Atomic"@),
        !begins_with("print"@, "Atomic"@),
        !begins_with("println"@, "Atomic"@),
        !begins_with("eprint"@, "Atomic"@),
        !begins_with("eprintln"@, "Atomic"@),
        !begins_with("std::print"@, "Atomic"@),
        !begins_with("std::println"@, "Atomic"@),
        !begins_with("std::eprint"@, "Atomic"@),
        !begins_with("std::eprintln"@, "Atomic"@),
{
    reveal_strlit("Own::new");
    reveal_strlit("Own::from_raw");
    reveal_strlit("Shared::new");
    reveal_strlit("Terminal::stdout");
    reveal_strlit("Vec::new");
    reveal_strlit("Vec::with_capacity");
    reveal_strlit("Map::new");
    reveal_strlit("Map::with_capacity");
    reveal_strlit("String::from_str");
    reveal_strlit("File::open");
    reveal_strlit("File::create");
    reveal_strlit("print");
    reveal_strlit("println");
    reveal_strlit("eprint");
    reveal_strlit("eprintln");
    reveal_strlit("std::print");
    reveal_strlit("std::println");
    reveal_strlit("std::eprint");
    reveal_strlit("std::eprintln");
    reveal_strlit("std::");
    reveal_strlit("e");
    reveal_strlit("ln");
    reveal_strlit("");
    reveal_strlit("::new");
    reveal_strlit("Atomic");
    reveal_strlit("AtomicBool");
    reveal_strlit("AtomicI32");
    reveal_strlit("AtomicU32");
    reveal_strlit("AtomicI64");
    reveal_strlit("AtomicU64");
    reveal_strlit("AtomicUsize");
    reveal_strlit("AtomicBool::new");
    reveal_strlit("AtomicI32::new");
    reveal_strlit("AtomicU32::new");
    reveal_strlit("AtomicI64::new");
    reveal_strlit("AtomicU64::new");
    reveal_strlit("AtomicUsize::new");
    assert("AtomicBool::new"@.subrange(0, 6) =~= "Atomic"@);
    assert("AtomicBool::new"@.subrange(10, 15) =~= "::new"@);
    assert("AtomicI32::new"@.subrange(0, 6) =~= "Atomic"@);
    assert("AtomicI32::new"@.subrange(9, 14) =~= "::new"@);
    assert("AtomicU32::new"@.subrange(0, 6) =~= "Atomic"@);
    assert("AtomicU32::new"@.subrange(9, 14) =~= "::new"@);
    assert("AtomicI64::new"@.subrange(0, 6) =~= "Atomic"@);
    assert("AtomicI64::new"@.subrange(9, 14) =~= "::new"@);
    assert("AtomicU64::new"@.subrange(0, 6) =~= "Atomic"@);
    assert("AtomicU64::new"@.subrange(9, 14) =~= "::new"@);
    assert("AtomicUsize::new"@.subrange(0, 6) =~= "Atomic"@);
    assert("AtomicUsize::new"@.subrange(11, 16) =~= "::new"@);
    assert("Own::new"@.len() < 6 || "Own::new"@.subrange(0, 6)[0] != 'A');
    assert("Own::from_raw"@.len() < 6 || "Own::from_raw"@.subrange(0, 6)[0] != 'A');
    assert("Shared::new"@.len() < 6 || "Shared::new"@.subrange(0, 6)[0] != 'A');
    assert("Terminal::stdout"@.len() < 6 || "Terminal::stdout"@.subrange(0, 6)[0] != 'A');
    assert("Vec::new"@.len() < 6 || "Vec::new"@.subrange(0, 6)[0] != 'A');
    assert("Vec::with_capacity"@.len() < 6 || "Vec::with_capacity"@.subrange(0, 6)[0] != 'A');
    assert("Map::new"@.len() < 6 || "Map::new"@.subrange(0, 6)[0] != 'A');
    assert("Map::with_capacity"@.len() < 6 || "Map::with_capacity"@.subrange(0, 6)[0] != 'A');
    assert("String::from_str"@.len() < 6 || "String::from_str"@.subrange(0, 6)[0] != 'A');
    assert("File::open"@.len() < 6 || "File::open"@.subrange(0, 6)[0] != 'A');
    assert("File::create"@.len() < 6 || "File::create"@.subrange(0, 6)[0] != 'A');
    assert("print"@.len() < 6 || "print"@.subrange(0, 6)[0] != 'A');
    assert("println"@.len() < 6 || "println"@.subrange(0, 6)[0] != 'A');
    assert("eprint"@.len() < 6 || "eprint"@.subrange(0, 6)[0] != 'A');
    assert("eprintln"@.len() < 6 || "eprintln"@.subrange(0, 6)[0] != 'A');
    assert("std::print"@.len() < 6 || "std::print"@.subrange(0, 6)[0] != 'A');
    assert("std::println"@.len() < 6 || "std::println"@.subrange(0, 6)[0] != 'A');
    assert("std::eprint"@.len() < 6 || "std::eprint"@.subrange(0, 6)[0] != 'A');
    assert("std::eprintln"@.len() < 6 || "std::eprintln"@.subrange(0, 6)[0] != 'A');
}

/// A static call that the compiler lowers itself is recognized by exactly its names.
pub proof fn statics_are_recognized_by_their_names(name: Seq<char>, builtin: StaticBuiltin)
    ensures
        spelled_builtin(name) == Some(builtin) <==> is_spelled(builtin, name),
{
    static_names_are_put_together();
    static_names_differ();
    atomic_names_begin_alike();
}

/// What carries compiler privilege is selected by the declaration that a name
/// resolves to, before any spelling is looked at.
pub proof fn privileged_calls_go_by_declaration(state: LowerState, name: Seq<char>)
    ensures
        state.static_builtin(name) == Some(StaticBuiltin::Spawn) <==>
            state.resolver.names_function(name, "std/thread"@, "spawn"@),
        state.static_builtin(name) == Some(StaticBuiltin::Scope) <==>
            state.resolver.names_function(name, "std/thread"@, "scope"@),
        state.static_builtin(name) == Some(StaticBuiltin::Channel) <==>
            state.resolver.names_function(name, "std/sync/spsc"@, "channel"@),
        state.static_builtin(name) == Some(StaticBuiltin::ArcNew) ==> name == "Arc::new"@
            && state.resolver.names_struct("Arc"@, "std/sync"@, "Arc"@),
        state.static_builtin(name) == Some(StaticBuiltin::MutexNew) ==> name == "Mutex::new"@
            && state.resolver.names_struct("Mutex"@, "std/sync"@, "Mutex"@),
{
    reveal_strlit("spawn");
    reveal_strlit("scope");
    reveal_strlit("std/thread");
    reveal_strlit("std/sync/spsc");
    assert("spawn"@[1] == 'p');
    assert("scope"@[1] == 'c');
    assert("std/thread"@.len() == 10);
    assert("std/sync/spsc"@.len() == 13);
}

} // verus!
