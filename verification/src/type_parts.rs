//! Properties of types that come from their parts: whatever is looked for in a type
//! is found exactly if the type itself is it, or one of its parts has it.

use vstd::prelude::*;

use crate::ast::{EnumVariantDef, FieldDef, Function, Item, Param, Stmt, TypeExpr};
use crate::lower::kinds::{
    any_holds_borrow, any_holds_guard, has_drop_glue, holds_borrow, holds_guard, moves_on_use,
};
use crate::text::leaf;
use crate::thread::{
    SCOPED_THREAD_HANDLE_TYPE, SCOPED_THREAD_SCOPE_TYPE, THREAD_HANDLE_TYPE,
};
use crate::types::{
    TypeView, ARC_TYPE_CONSTRUCTOR, MUTEX_GUARD_TYPE_CONSTRUCTOR, MUTEX_TYPE_CONSTRUCTOR,
    SPSC_RECEIVER_TYPE_CONSTRUCTOR, SPSC_SENDER_TYPE_CONSTRUCTOR,
};
use crate::validation::{
    any_holds_borrowed_callable, any_holds_scoped_token, direct_place, field_positions_from,
    function_positions, hashable_scalar, holds_borrowed_callable, holds_scoped_token,
    item_positions, let_positions_from, method_positions_from, method_role,
    param_positions_from, variant_positions_from, FunctionRoleView, TypePlace, TypePositionView,
};

verus! {

/// The types that a type is directly made of.
pub open spec fn direct_parts(ty: TypeView) -> Seq<TypeView> {
    match ty {
        TypeView::Ref(inner, _) => seq![*inner],
        TypeView::Array(inner, _) => seq![*inner],
        TypeView::Own(inner) => seq![*inner],
        TypeView::RawPtr(inner) => seq![*inner],
        TypeView::Shared(inner) => seq![*inner],
        TypeView::App { args, .. } => args,
        TypeView::Tuple(elements) => elements,
        TypeView::Function { params, ret } => params.push(*ret),
        TypeView::BorrowedFunction { params, ret, .. } => params.push(*ret),
        _ => Seq::empty(),
    }
}

/// A borrowed callable is in a type exactly if the type is one, or a part has one.
pub proof fn borrowed_callables_are_found_in_parts(ty: TypeView)
    ensures
        holds_borrowed_callable(ty) <==> ty is BorrowedFunction || exists|i: int|
            0 <= i < direct_parts(ty).len() && holds_borrowed_callable(
                #[trigger] direct_parts(ty)[i],
            ),
{
    let parts = direct_parts(ty);
    match ty {
        TypeView::Function { params, ret } => {
            assert(parts[params.len() as int] == *ret);
            if any_holds_borrowed_callable(params) {
                let i = choose|i: int| 0 <= i < params.len() && holds_borrowed_callable(#[trigger] params[i]);
                assert(holds_borrowed_callable(parts[i]));
            }
            if exists|i: int| 0 <= i < parts.len() && holds_borrowed_callable(#[trigger] parts[i]) {
                let i = choose|i: int| 0 <= i < parts.len() && holds_borrowed_callable(#[trigger] parts[i]);
                if i < params.len() {
                    assert(holds_borrowed_callable(params[i]));
                    assert(any_holds_borrowed_callable(params));
                }
            }
        },
        TypeView::App { args, .. } => {
            if any_holds_borrowed_callable(args) {
                let i = choose|i: int| 0 <= i < args.len() && holds_borrowed_callable(#[trigger] args[i]);
                assert(holds_borrowed_callable(parts[i]));
            }
            if exists|i: int| 0 <= i < parts.len() && holds_borrowed_callable(#[trigger] parts[i]) {
                let i = choose|i: int| 0 <= i < parts.len() && holds_borrowed_callable(#[trigger] parts[i]);
                assert(holds_borrowed_callable(args[i]));
                assert(any_holds_borrowed_callable(args));
            }
        },
        TypeView::Tuple(args) => {
            if any_holds_borrowed_callable(args) {
                let i = choose|i: int| 0 <= i < args.len() && holds_borrowed_callable(#[trigger] args[i]);
                assert(holds_borrowed_callable(parts[i]));
            }
            if exists|i: int| 0 <= i < parts.len() && holds_borrowed_callable(#[trigger] parts[i]) {
                let i = choose|i: int| 0 <= i < parts.len() && holds_borrowed_callable(#[trigger] parts[i]);
                assert(holds_borrowed_callable(args[i]));
                assert(any_holds_borrowed_callable(args));
            }
        },
        TypeView::Ref(inner, _) => {
            assert(parts[0] == *inner);
        },
        TypeView::Array(inner, _) => {
            assert(parts[0] == *inner);
        },
        TypeView::Own(inner) => {
            assert(parts[0] == *inner);
        },
        TypeView::RawPtr(inner) => {
            assert(parts[0] == *inner);
        },
        TypeView::Shared(inner) => {
            assert(parts[0] == *inner);
        },
        _ => {},
    }
}

/// A scope token or a scoped handle is in a type exactly if the type is one, or a
/// part has one.
pub proof fn scoped_tokens_are_found_in_parts(ty: TypeView)
    ensures
        holds_scoped_token(ty) <==> ty == TypeView::Named(SCOPED_THREAD_SCOPE_TYPE@) || (
        ty matches TypeView::App { base, .. } && base == SCOPED_THREAD_HANDLE_TYPE@) || (exists|i: int|
            0 <= i < direct_parts(ty).len() && holds_scoped_token(#[trigger] direct_parts(ty)[i])),
{
    let parts = direct_parts(ty);
    match ty {
        TypeView::Function { params, ret } => {
            assert(parts[params.len() as int] == *ret);
            if any_holds_scoped_token(params) {
                let i = choose|i: int| 0 <= i < params.len() && holds_scoped_token(#[trigger] params[i]);
                assert(holds_scoped_token(parts[i]));
            }
            if exists|i: int| 0 <= i < parts.len() && holds_scoped_token(#[trigger] parts[i]) {
                let i = choose|i: int| 0 <= i < parts.len() && holds_scoped_token(#[trigger] parts[i]);
                if i < params.len() {
                    assert(holds_scoped_token(params[i]));
                    assert(any_holds_scoped_token(params));
                }
            }
        },
        TypeView::BorrowedFunction { params, ret, .. } => {
            assert(parts[params.len() as int] == *ret);
            if any_holds_scoped_token(params) {
                let i = choose|i: int| 0 <= i < params.len() && holds_scoped_token(#[trigger] params[i]);
                assert(holds_scoped_token(parts[i]));
            }
            if exists|i: int| 0 <= i < parts.len() && holds_scoped_token(#[trigger] parts[i]) {
                let i = choose|i: int| 0 <= i < parts.len() && holds_scoped_token(#[trigger] parts[i]);
                if i < params.len() {
                    assert(holds_scoped_token(params[i]));
                    assert(any_holds_scoped_token(params));
                }
            }
        },
        TypeView::App { args, .. } => {
            if any_holds_scoped_token(args) {
                let i = choose|i: int| 0 <= i < args.len() && holds_scoped_token(#[trigger] args[i]);
                assert(holds_scoped_token(parts[i]));
            }
            if exists|i: int| 0 <= i < parts.len() && holds_scoped_token(#[trigger] parts[i]) {
                let i = choose|i: int| 0 <= i < parts.len() && holds_scoped_token(#[trigger] parts[i]);
                assert(holds_scoped_token(args[i]));
                assert(any_holds_scoped_token(args));
            }
        },
        TypeView::Tuple(args) => {
            if any_holds_scoped_token(args) {
                let i = choose|i: int| 0 <= i < args.len() && holds_scoped_token(#[trigger] args[i]);
                assert(holds_scoped_token(parts[i]));
            }
            if exists|i: int| 0 <= i < parts.len() && holds_scoped_token(#[trigger] parts[i]) {
                let i = choose|i: int| 0 <= i < parts.len() && holds_scoped_token(#[trigger] parts[i]);
                assert(holds_scoped_token(args[i]));
                assert(any_holds_scoped_token(args));
            }
        },
        TypeView::Ref(inner, _) => {
            assert(parts[0] == *inner);
        },
        TypeView::Array(inner, _) => {
            assert(parts[0] == *inner);
        },
        TypeView::Own(inner) => {
            assert(parts[0] == *inner);
        },
        TypeView::RawPtr(inner) => {
            assert(parts[0] == *inner);
        },
        TypeView::Shared(inner) => {
            assert(parts[0] == *inner);
        },
        _ => {},
    }
}

/// A mutex guard is in a type exactly if the type is one, or a part has one. What a
/// borrowed callable takes and gives is not part of it.
pub proof fn guards_are_found_in_parts(ty: TypeView)
    ensures
        holds_guard(ty) <==> (ty matches TypeView::App { base, args } && base
            == MUTEX_GUARD_TYPE_CONSTRUCTOR@ && args.len() == 1) || !(ty is BorrowedFunction)
            && exists|i: int|
            0 <= i < direct_parts(ty).len() && holds_guard(#[trigger] direct_parts(ty)[i]),
{
    let parts = direct_parts(ty);
    match ty {
        TypeView::Function { params, ret } => {
            assert(parts[params.len() as int] == *ret);
            if any_holds_guard(params) {
                let i = choose|i: int| 0 <= i < params.len() && holds_guard(#[trigger] params[i]);
                assert(holds_guard(parts[i]));
            }
            if exists|i: int| 0 <= i < parts.len() && holds_guard(#[trigger] parts[i]) {
                let i = choose|i: int| 0 <= i < parts.len() && holds_guard(#[trigger] parts[i]);
                if i < params.len() {
                    assert(holds_guard(params[i]));
                    assert(any_holds_guard(params));
                }
            }
        },
        TypeView::App { args, .. } => {
            if any_holds_guard(args) {
                let i = choose|i: int| 0 <= i < args.len() && holds_guard(#[trigger] args[i]);
                assert(holds_guard(parts[i]));
            }
            if exists|i: int| 0 <= i < parts.len() && holds_guard(#[trigger] parts[i]) {
                let i = choose|i: int| 0 <= i < parts.len() && holds_guard(#[trigger] parts[i]);
                assert(holds_guard(args[i]));
                assert(any_holds_guard(args));
            }
        },
        TypeView::Tuple(args) => {
            if any_holds_guard(args) {
                let i = choose|i: int| 0 <= i < args.len() && holds_guard(#[trigger] args[i]);
                assert(holds_guard(parts[i]));
            }
            if exists|i: int| 0 <= i < parts.len() && holds_guard(#[trigger] parts[i]) {
                let i = choose|i: int| 0 <= i < parts.len() && holds_guard(#[trigger] parts[i]);
                assert(holds_guard(args[i]));
                assert(any_holds_guard(args));
            }
        },
        TypeView::Ref(inner, _) => {
            assert(parts[0] == *inner);
        },
        TypeView::Array(inner, _) => {
            assert(parts[0] == *inner);
        },
        TypeView::Own(inner) => {
            assert(parts[0] == *inner);
        },
        TypeView::RawPtr(inner) => {
            assert(parts[0] == *inner);
        },
        TypeView::Shared(inner) => {
            assert(parts[0] == *inner);
        },
        _ => {},
    }
}

/// Something borrowed is in a type exactly if the type is a reference or a borrowed
/// callable, or a part has it. What an owned callable gives is not part of it.
pub proof fn borrows_are_found_in_parts(ty: TypeView)
    ensures
        holds_borrow(ty) <==> ty is Ref || ty is BorrowedFunction || exists|i: int|
            0 <= i < direct_parts(ty).len() && !(ty is Function && i == direct_parts(ty).len() - 1)
                && holds_borrow(#[trigger] direct_parts(ty)[i]),
{
    let parts = direct_parts(ty);
    match ty {
        TypeView::Function { params, ret } => {
            assert(parts[params.len() as int] == *ret);
            if any_holds_borrow(params) {
                let i = choose|i: int| 0 <= i < params.len() && holds_borrow(#[trigger] params[i]);
                assert(holds_borrow(parts[i]));
            }
            if exists|i: int| 0 <= i < parts.len() && i != parts.len() - 1 && holds_borrow(#[trigger] parts[i]) {
                let i = choose|i: int| 0 <= i < parts.len() && i != parts.len() - 1 && holds_borrow(#[trigger] parts[i]);
                if i < params.len() {
                    assert(holds_borrow(params[i]));
                    assert(any_holds_borrow(params));
                }
            }
        },
        TypeView::App { args, .. } => {
            if any_holds_borrow(args) {
                let i = choose|i: int| 0 <= i < args.len() && holds_borrow(#[trigger] args[i]);
                assert(holds_borrow(parts[i]));
            }
            if exists|i: int| 0 <= i < parts.len() && holds_borrow(#[trigger] parts[i]) {
                let i = choose|i: int| 0 <= i < parts.len() && holds_borrow(#[trigger] parts[i]);
                assert(holds_borrow(args[i]));
                assert(any_holds_borrow(args));
            }
        },
        TypeView::Tuple(args) => {
            if any_holds_borrow(args) {
                let i = choose|i: int| 0 <= i < args.len() && holds_borrow(#[trigger] args[i]);
                assert(holds_borrow(parts[i]));
            }
            if exists|i: int| 0 <= i < parts.len() && holds_borrow(#[trigger] parts[i]) {
                let i = choose|i: int| 0 <= i < parts.len() && holds_borrow(#[trigger] parts[i]);
                assert(holds_borrow(args[i]));
                assert(any_holds_borrow(args));
            }
        },
        TypeView::Array(inner, _) => {
            assert(parts[0] == *inner);
        },
        TypeView::Own(inner) => {
            assert(parts[0] == *inner);
        },
        TypeView::RawPtr(inner) => {
            assert(parts[0] == *inner);
        },
        TypeView::Shared(inner) => {
            assert(parts[0] == *inner);
        },
        _ => {},
    }
}

/// Whether a generic type is one of the runtime's own handles.
pub open spec fn applies_a_handle(ty: TypeView) -> bool {
    ty matches TypeView::App { base, args } && args.len() == 1 && (base == ARC_TYPE_CONSTRUCTOR@
        || base == MUTEX_TYPE_CONSTRUCTOR@ || base == MUTEX_GUARD_TYPE_CONSTRUCTOR@ || base
        == SPSC_SENDER_TYPE_CONSTRUCTOR@ || base == SPSC_RECEIVER_TYPE_CONSTRUCTOR@ || base
        == THREAD_HANDLE_TYPE@ || base == SCOPED_THREAD_HANDLE_TYPE@)
}

/// Allocations, handles, outcomes and declared types run cleanup when they go away;
/// so do vectors and maps. All but declared types, vectors and maps are moved by a
/// use. Nothing else runs cleanup.
pub proof fn owners_run_cleanup(ty: TypeView)
    ensures
        ({
            let outcome = ty matches TypeView::App { base, .. } && (leaf(base, "::"@) == "Result"@
                || leaf(base, "::"@) == "Option"@ || leaf(base, "::"@) == "TrySendResult"@ || leaf(
                base,
                "::"@,
            ) == "TryRecvResult"@);
            let collection = ty matches TypeView::App { base, .. } && (leaf(base, "::"@) == "Vec"@
                || leaf(base, "::"@) == "Map"@);
            let owner = ty is Own || ty is Shared || ty is Atomic || ty is String || ty is Enum
                || ty is Function;
            &&& moves_on_use(ty) <==> owner || outcome || applies_a_handle(ty)
            &&& has_drop_glue(ty) <==> owner || outcome || applies_a_handle(ty) || collection
                || ty is Named
        }),
{
}

/// A key is hashed by what it is: integers, flags, characters, text, and addresses.
/// Neither a floating-point number nor an owned or generic type is a key by itself.
pub proof fn plain_keys_are_hashed(ty: TypeView)
    ensures
        hashable_scalar(ty) <==> ty is I8 || ty is I32 || ty is I64 || ty is U8 || ty is U32
            || ty is U64 || ty is Usize || ty is Bool || ty is Char || ty is RawPtr || ty is Ref
            || ty is String || ty is Str,
{
}

/// A lexical value stands directly only for the time of a call or of a block.
pub proof fn direct_places_are_short_lived(place: TypePlace)
    ensures
        direct_place(place) <==> place == TypePlace::Parameter || place == TypePlace::LocalBinding
            || place == TypePlace::InterfaceParameter,
        direct_place(place) ==> place != TypePlace::StructField && place != TypePlace::EnumPayload
            && place != TypePlace::FunctionReturn && place != TypePlace::InterfaceReturn && place
            != TypePlace::ForeignParameter && place != TypePlace::ForeignReturn && place
            != TypePlace::ConstType,
{
}

pub open spec fn written(
    ty: TypeExpr,
    place: TypePlace,
    role: FunctionRoleView,
) -> TypePositionView {
    TypePositionView { ty: ty@, place, role }
}

proof fn parameters_are_positions(
    params: Seq<Param>,
    place: TypePlace,
    role: FunctionRoleView,
    i: int,
    k: int,
)
    requires
        0 <= i <= k < params.len(),
        params[k].ty is Some,
    ensures
        param_positions_from(params, place, role, i).contains(
            written(params[k].ty->0, place, role),
        ),
    decreases k - i,
{
    let wanted = written(params[k].ty->0, place, role);
    let all = param_positions_from(params, place, role, i);
    if i == k {
        assert(all[0] == wanted);
    } else {
        parameters_are_positions(params, place, role, i + 1, k);
        let rest = param_positions_from(params, place, role, i + 1);
        let j = choose|j: int| 0 <= j < rest.len() && rest[j] == wanted;
        assert(all[all.len() - rest.len() + j] == wanted);
    }
}

proof fn annotations_are_positions(
    stmts: Seq<Stmt>,
    role: FunctionRoleView,
    i: int,
    k: int,
)
    requires
        0 <= i <= k < stmts.len(),
        stmts[k] matches Stmt::Let { ty: Some(_), .. },
    ensures
        let_positions_from(stmts, role, i).contains(
            written(stmts[k]->Let_ty->0, TypePlace::LocalBinding, role),
        ),
    decreases k - i,
{
    let wanted = written(stmts[k]->Let_ty->0, TypePlace::LocalBinding, role);
    let all = let_positions_from(stmts, role, i);
    if i == k {
        assert(all[0] == wanted);
    } else {
        annotations_are_positions(stmts, role, i + 1, k);
        let rest = let_positions_from(stmts, role, i + 1);
        let j = choose|j: int| 0 <= j < rest.len() && rest[j] == wanted;
        assert(all[all.len() - rest.len() + j] == wanted);
    }
}

/// Every type that is written in a function's signature, or at a binding at the top
/// level of its body, is looked at, as what it is.
pub proof fn function_types_are_looked_at(function: Function, role: FunctionRoleView, k: int)
    ensures
        0 <= k < function.params@.len() && function.params@[k].ty is Some ==> function_positions(
            function,
            role,
        ).contains(written(function.params@[k].ty->0, TypePlace::Parameter, role)),
        function.ret_type is Some ==> function_positions(function, role).contains(
            written(function.ret_type->0, TypePlace::FunctionReturn, role),
        ),
        0 <= k < function.body.stmts@.len() && (function.body.stmts@[k] matches Stmt::Let {
            ty: Some(_),
            ..
        }) ==> function_positions(function, role).contains(
            written(function.body.stmts@[k]->Let_ty->0, TypePlace::LocalBinding, role),
        ),
{
    let params = param_positions_from(function.params@, TypePlace::Parameter, role, 0);
    let lets = let_positions_from(function.body.stmts@, role, 0);
    let all = function_positions(function, role);
    if 0 <= k < function.params@.len() && function.params@[k].ty is Some {
        parameters_are_positions(function.params@, TypePlace::Parameter, role, 0, k);
        let wanted = written(function.params@[k].ty->0, TypePlace::Parameter, role);
        let j = choose|j: int| 0 <= j < params.len() && params[j] == wanted;
        assert(all[j] == wanted);
    }
    if function.ret_type is Some {
        assert(all[params.len() as int] == written(
            function.ret_type->0,
            TypePlace::FunctionReturn,
            role,
        ));
    }
    if 0 <= k < function.body.stmts@.len() && (function.body.stmts@[k] matches Stmt::Let {
        ty: Some(_),
        ..
    }) {
        annotations_are_positions(function.body.stmts@, role, 0, k);
        let wanted = written(
            function.body.stmts@[k]->Let_ty->0,
            TypePlace::LocalBinding,
            role,
        );
        let j = choose|j: int| 0 <= j < lets.len() && lets[j] == wanted;
        assert(all[all.len() - lets.len() + j] == wanted);
    }
}

proof fn fields_are_positions(fields: Seq<FieldDef>, i: int, k: int)
    requires
        0 <= i <= k < fields.len(),
    ensures
        field_positions_from(fields, i).contains(
            written(fields[k].ty, TypePlace::StructField, FunctionRoleView::Ordinary),
        ),
    decreases k - i,
{
    let wanted = written(fields[k].ty, TypePlace::StructField, FunctionRoleView::Ordinary);
    let all = field_positions_from(fields, i);
    if i == k {
        assert(all[0] == wanted);
    } else {
        fields_are_positions(fields, i + 1, k);
        let rest = field_positions_from(fields, i + 1);
        let j = choose|j: int| 0 <= j < rest.len() && rest[j] == wanted;
        assert(all[1 + j] == wanted);
    }
}

proof fn payloads_are_positions(variants: Seq<EnumVariantDef>, i: int, k: int)
    requires
        0 <= i <= k < variants.len(),
        variants[k].payload is Some,
    ensures
        variant_positions_from(variants, i).contains(
            written(variants[k].payload->0, TypePlace::EnumPayload, FunctionRoleView::Ordinary),
        ),
    decreases k - i,
{
    let wanted = written(
        variants[k].payload->0,
        TypePlace::EnumPayload,
        FunctionRoleView::Ordinary,
    );
    let all = variant_positions_from(variants, i);
    if i == k {
        assert(all[0] == wanted);
    } else {
        payloads_are_positions(variants, i + 1, k);
        let rest = variant_positions_from(variants, i + 1);
        let j = choose|j: int| 0 <= j < rest.len() && rest[j] == wanted;
        assert(all[all.len() - rest.len() + j] == wanted);
    }
}

proof fn methods_are_positions(
    methods: Seq<Function>,
    owner: Option<Seq<char>>,
    i: int,
    k: int,
    wanted: TypePositionView,
)
    requires
        0 <= i <= k < methods.len(),
        function_positions(methods[k], method_role(owner, methods[k])).contains(
            wanted,
        ),
    ensures
        method_positions_from(methods, owner, i).contains(wanted),
    decreases k - i,
{
    let all = method_positions_from(methods, owner, i);
    let rest = method_positions_from(methods, owner, i + 1);
    if i == k {
        let here = function_positions(
            methods[k],
            method_role(owner, methods[k]),
        );
        let j = choose|j: int| 0 <= j < here.len() && here[j] == wanted;
        assert(all[j] == wanted);
    } else {
        methods_are_positions(methods, owner, i + 1, k, wanted);
        let j = choose|j: int| 0 <= j < rest.len() && rest[j] == wanted;
        assert(all[all.len() - rest.len() + j] == wanted);
    }
}

/// Every type that is written in an item is looked at, as what it is: the field of a
/// struct, the payload of a variant, the signature of a free or foreign function, of
/// a method, and the type of a constant.
pub proof fn item_types_are_looked_at(item: Item, k: int, wanted: TypePositionView)
    ensures
        item matches Item::Struct(definition) ==> {
            &&& 0 <= k < definition.fields@.len() ==> item_positions(item).contains(
                written(
                    definition.fields@[k].ty,
                    TypePlace::StructField,
                    FunctionRoleView::Ordinary,
                ),
            )
            &&& 0 <= k < definition.methods@.len() && function_positions(
                definition.methods@[k],
                FunctionRoleView::Method {
                    owner: definition.name.0@,
                    name: definition.methods@[k].name.0@,
                },
            ).contains(wanted) ==> item_positions(item).contains(wanted)
        },
        item matches Item::Enum(definition) ==> (0 <= k < definition.variants@.len()
            && definition.variants@[k].payload is Some ==> item_positions(item).contains(
            written(
                definition.variants@[k].payload->0,
                TypePlace::EnumPayload,
                FunctionRoleView::Ordinary,
            ),
        )),
        item matches Item::Impl(block) ==> (0 <= k < block.methods@.len() && function_positions(
            block.methods@[k],
            FunctionRoleView::Ordinary,
        ).contains(wanted) ==> item_positions(item).contains(wanted)),
        item matches Item::Function(function) ==> item_positions(item) == function_positions(
            function,
            FunctionRoleView::Free { name: function.name.0@ },
        ),
        item matches Item::ExternFunction(function) ==> {
            &&& 0 <= k < function.params@.len() && function.params@[k].ty is Some
                ==> item_positions(item).contains(
                written(
                    function.params@[k].ty->0,
                    TypePlace::ForeignParameter,
                    FunctionRoleView::Ordinary,
                ),
            )
            &&& function.ret_type is Some ==> item_positions(item).contains(
                written(
                    function.ret_type->0,
                    TypePlace::ForeignReturn,
                    FunctionRoleView::Ordinary,
                ),
            )
        },
        item matches Item::Const(definition) ==> item_positions(item).contains(
            written(definition.ty, TypePlace::ConstType, FunctionRoleView::Ordinary),
        ),
{
    let all = item_positions(item);
    match item {
        Item::Struct(definition) => {
            let owner = Some(definition.name.0@);
            let fields = field_positions_from(definition.fields@, 0);
            let methods = method_positions_from(definition.methods@, owner, 0);
            if 0 <= k < definition.fields@.len() {
                fields_are_positions(definition.fields@, 0, k);
                let field = written(
                    definition.fields@[k].ty,
                    TypePlace::StructField,
                    FunctionRoleView::Ordinary,
                );
                let j = choose|j: int| 0 <= j < fields.len() && fields[j] == field;
                assert(all[j] == field);
            }
            if 0 <= k < definition.methods@.len() && function_positions(
                definition.methods@[k],
                FunctionRoleView::Method {
                    owner: definition.name.0@,
                    name: definition.methods@[k].name.0@,
                },
            ).contains(wanted) {
                methods_are_positions(definition.methods@, owner, 0, k, wanted);
                let j = choose|j: int| 0 <= j < methods.len() && methods[j] == wanted;
                assert(all[fields.len() + j] == wanted);
            }
        },
        Item::Enum(definition) => {
            if 0 <= k < definition.variants@.len() && definition.variants@[k].payload is Some {
                payloads_are_positions(definition.variants@, 0, k);
            }
        },
        Item::Impl(block) => {
            if 0 <= k < block.methods@.len() && function_positions(
                block.methods@[k],
                FunctionRoleView::Ordinary,
            ).contains(wanted) {
                methods_are_positions(block.methods@, None, 0, k, wanted);
            }
        },
        Item::ExternFunction(function) => {
            let params = param_positions_from(
                function.params@,
                TypePlace::ForeignParameter,
                FunctionRoleView::Ordinary,
                0,
            );
            if 0 <= k < function.params@.len() && function.params@[k].ty is Some {
                parameters_are_positions(
                    function.params@,
                    TypePlace::ForeignParameter,
                    FunctionRoleView::Ordinary,
                    0,
                    k,
                );
                let param = written(
                    function.params@[k].ty->0,
                    TypePlace::ForeignParameter,
                    FunctionRoleView::Ordinary,
                );
                let j = choose|j: int| 0 <= j < params.len() && params[j] == param;
                assert(all[j] == param);
            }
            if function.ret_type is Some {
                assert(all[params.len() as int] == written(
                    function.ret_type->0,
                    TypePlace::ForeignReturn,
                    FunctionRoleView::Ordinary,
                ));
            }
        },
        Item::Const(definition) => {
            assert(all[0] == written(
                definition.ty,
                TypePlace::ConstType,
                FunctionRoleView::Ordinary,
            ));
        },
        _ => {},
    }
}

} // verus!
