//! Checks on declared types that need resolved type information: undefined
//! names, `Map` keys, and the places where borrowed callables and scoped-thread
//! tokens may appear.

use vstd::prelude::*;

use crate::ast::{
    type_exprs_view, Block, EnumVariantDef, FieldDef, Function, Ident, InlineImpl, InterfaceMethod,
    Item, Module, Param, Stmt, TypeExpr, TypeExprView,
};
use crate::diag::{diagnostics_view, error_view, push_error, Diagnostic, DiagnosticView, Span};
use crate::resolver::{
    declaring_module, generic_params_of, ident_names, idents_view, resolve_type_expr_to_type,
    struct_generic_params, type_expr_text, type_expr_to_string, ResolvedSymbol, ResolverContext,
};
use crate::table::{has_key, value_of};
use crate::text::{
    concat3, concat5, concat7, decimal, decimal_text, join, joined, same_text, texts_view,
};
use crate::thread::{
    is_canonical_scoped_thread_handle, SCOPED_THREAD_HANDLE_TYPE, SCOPED_THREAD_SCOPE_TYPE,
};
use crate::types::{canonical_argument, types_view, EnumVariant, Type, TypeView};

verus! {

pub const HASH_INTERFACE: &'static str = "Hash";

/// Where in a module a type is written.
#[derive(Debug, Clone, Copy, PartialEq, Eq, Structural)]
pub enum TypePlace {
    StructField,
    Parameter,
    FunctionReturn,
    LocalBinding,
    EnumPayload,
    InterfaceParameter,
    InterfaceReturn,
    ForeignParameter,
    ForeignReturn,
    ConstType,
}

/// The function that a type belongs to, as far as its name can matter.
pub enum FunctionRole<'m> {
    /// Not part of a function, or part of one that is never intrinsic.
    Ordinary,
    /// A method in the definition of a struct.
    Method { owner: &'m str, name: &'m str },
    /// A function at the top level of a module.
    Free { name: &'m str },
}

pub enum FunctionRoleView {
    Ordinary,
    Method { owner: Seq<char>, name: Seq<char> },
    Free { name: Seq<char> },
}

impl<'m> View for FunctionRole<'m> {
    type V = FunctionRoleView;

    open spec fn view(&self) -> FunctionRoleView {
        match self {
            FunctionRole::Ordinary => FunctionRoleView::Ordinary,
            FunctionRole::Method { owner, name } => FunctionRoleView::Method {
                owner: owner@,
                name: name@,
            },
            FunctionRole::Free { name } => FunctionRoleView::Free { name: name@ },
        }
    }
}

impl<'m> FunctionRole<'m> {
    fn duplicate(&self) -> (copy: FunctionRole<'m>)
        ensures
            copy@ == self@,
    {
        match self {
            FunctionRole::Ordinary => FunctionRole::Ordinary,
            FunctionRole::Method { owner, name } => FunctionRole::Method { owner: *owner, name: *name },
            FunctionRole::Free { name } => FunctionRole::Free { name: *name },
        }
    }
}

/// One type written in a module.
pub struct TypePosition<'m> {
    pub ty: &'m TypeExpr,
    pub place: TypePlace,
    pub role: FunctionRole<'m>,
}

pub struct TypePositionView {
    pub ty: TypeExprView,
    pub place: TypePlace,
    pub role: FunctionRoleView,
}

impl<'m> View for TypePosition<'m> {
    type V = TypePositionView;

    open spec fn view(&self) -> TypePositionView {
        TypePositionView { ty: self.ty@, place: self.place, role: self.role@ }
    }
}

pub open spec fn positions_view(positions: Seq<TypePosition>) -> Seq<TypePositionView> {
    Seq::new(positions.len(), |i: int| positions[i]@)
}

pub open spec fn optional_position(
    ty: Option<TypeExpr>,
    place: TypePlace,
    role: FunctionRoleView,
) -> Seq<TypePositionView> {
    match ty {
        Some(ty) => seq![TypePositionView { ty: ty@, place, role }],
        None => Seq::empty(),
    }
}

pub open spec fn param_positions_from(
    params: Seq<Param>,
    place: TypePlace,
    role: FunctionRoleView,
    i: int,
) -> Seq<TypePositionView>
    decreases params.len() - i,
{
    if i < 0 || i >= params.len() {
        Seq::empty()
    } else {
        optional_position(params[i].ty, place, role) + param_positions_from(
            params,
            place,
            role,
            i + 1,
        )
    }
}

/// The annotated type of a `let` statement.
pub open spec fn let_annotation(stmt: Stmt) -> Option<TypeExpr> {
    match stmt {
        Stmt::Let { ty, .. } => ty,
        _ => None,
    }
}

pub open spec fn let_positions_from(
    stmts: Seq<Stmt>,
    role: FunctionRoleView,
    i: int,
) -> Seq<TypePositionView>
    decreases stmts.len() - i,
{
    if i < 0 || i >= stmts.len() {
        Seq::empty()
    } else {
        optional_position(let_annotation(stmts[i]), TypePlace::LocalBinding, role)
            + let_positions_from(stmts, role, i + 1)
    }
}

/// The types in a function: its parameters, its result, and the annotated
/// bindings at the top level of its body.
pub open spec fn function_positions(function: Function, role: FunctionRoleView) -> Seq<
    TypePositionView,
> {
    param_positions_from(function.params@, TypePlace::Parameter, role, 0) + optional_position(
        function.ret_type,
        TypePlace::FunctionReturn,
        role,
    ) + let_positions_from(function.body.stmts@, role, 0)
}

pub open spec fn method_role(owner: Option<Seq<char>>, function: Function) -> FunctionRoleView {
    match owner {
        Some(owner) => FunctionRoleView::Method { owner, name: function.name.0@ },
        None => FunctionRoleView::Ordinary,
    }
}

pub open spec fn method_positions_from(
    methods: Seq<Function>,
    owner: Option<Seq<char>>,
    i: int,
) -> Seq<TypePositionView>
    decreases methods.len() - i,
{
    if i < 0 || i >= methods.len() {
        Seq::empty()
    } else {
        function_positions(methods[i], method_role(owner, methods[i])) + method_positions_from(
            methods,
            owner,
            i + 1,
        )
    }
}

pub open spec fn inline_positions_from(
    impls: Seq<InlineImpl>,
    owner: Option<Seq<char>>,
    i: int,
) -> Seq<TypePositionView>
    decreases impls.len() - i,
{
    if i < 0 || i >= impls.len() {
        Seq::empty()
    } else {
        method_positions_from(impls[i].methods@, owner, 0) + inline_positions_from(
            impls,
            owner,
            i + 1,
        )
    }
}

pub open spec fn field_positions_from(fields: Seq<FieldDef>, i: int) -> Seq<TypePositionView>
    decreases fields.len() - i,
{
    if i < 0 || i >= fields.len() {
        Seq::empty()
    } else {
        seq![
            TypePositionView {
                ty: fields[i].ty@,
                place: TypePlace::StructField,
                role: FunctionRoleView::Ordinary,
            },
        ] + field_positions_from(fields, i + 1)
    }
}

pub open spec fn variant_positions_from(variants: Seq<EnumVariantDef>, i: int) -> Seq<
    TypePositionView,
>
    decreases variants.len() - i,
{
    if i < 0 || i >= variants.len() {
        Seq::empty()
    } else {
        optional_position(
            variants[i].payload,
            TypePlace::EnumPayload,
            FunctionRoleView::Ordinary,
        ) + variant_positions_from(variants, i + 1)
    }
}

pub open spec fn interface_positions_from(methods: Seq<InterfaceMethod>, i: int) -> Seq<
    TypePositionView,
>
    decreases methods.len() - i,
{
    if i < 0 || i >= methods.len() {
        Seq::empty()
    } else {
        param_positions_from(
            methods[i].params@,
            TypePlace::InterfaceParameter,
            FunctionRoleView::Ordinary,
            0,
        ) + optional_position(
            methods[i].ret_type,
            TypePlace::InterfaceReturn,
            FunctionRoleView::Ordinary,
        ) + interface_positions_from(methods, i + 1)
    }
}

/// Every type that is written in an item, in source order.
pub open spec fn item_positions(item: Item) -> Seq<TypePositionView> {
    match item {
        Item::Struct(definition) => {
            let owner = Some(definition.name.0@);
            field_positions_from(definition.fields@, 0) + method_positions_from(
                definition.methods@,
                owner,
                0,
            ) + inline_positions_from(definition.inline_impls@, owner, 0)
        },
        Item::Enum(definition) => variant_positions_from(definition.variants@, 0),
        Item::Interface(definition) => interface_positions_from(definition.methods@, 0),
        Item::Impl(block) => method_positions_from(block.methods@, None, 0),
        Item::Function(function) => function_positions(
            function,
            FunctionRoleView::Free { name: function.name.0@ },
        ),
        Item::ExternFunction(function) => param_positions_from(
            function.params@,
            TypePlace::ForeignParameter,
            FunctionRoleView::Ordinary,
            0,
        ) + optional_position(
            function.ret_type,
            TypePlace::ForeignReturn,
            FunctionRoleView::Ordinary,
        ),
        Item::Const(definition) => seq![
            TypePositionView {
                ty: definition.ty@,
                place: TypePlace::ConstType,
                role: FunctionRoleView::Ordinary,
            },
        ],
    }
}

fn push_position<'m>(
    out: &mut Vec<TypePosition<'m>>,
    ty: &'m TypeExpr,
    place: TypePlace,
    role: FunctionRole<'m>,
)
    ensures
        positions_view(final(out)@) == positions_view(old(out)@) + seq![
            TypePositionView { ty: ty@, place, role: role@ },
        ],
{
    out.push(TypePosition { ty, place, role });
    assert(positions_view(out@) =~= positions_view(old(out)@) + seq![
        TypePositionView { ty: ty@, place, role: role@ },
    ]);
}

fn push_optional<'m>(
    out: &mut Vec<TypePosition<'m>>,
    ty: &'m Option<TypeExpr>,
    place: TypePlace,
    role: FunctionRole<'m>,
)
    ensures
        positions_view(final(out)@) == positions_view(old(out)@) + optional_position(
            *ty,
            place,
            role@,
        ),
{
    match ty {
        Some(ty) => push_position(out, ty, place, role),
        None => {
            assert(positions_view(out@) =~= positions_view(old(out)@) + optional_position(
                *ty,
                place,
                role@,
            ));
        },
    }
}

fn push_params<'m>(
    out: &mut Vec<TypePosition<'m>>,
    params: &'m Vec<Param>,
    place: TypePlace,
    role: FunctionRole<'m>,
)
    ensures
        positions_view(final(out)@) == positions_view(old(out)@) + param_positions_from(
            params@,
            place,
            role@,
            0,
        ),
{
    let mut i: usize = 0;
    while i < params.len()
        invariant
            i <= params.len(),
            positions_view(out@) + param_positions_from(params@, place, role@, i as int)
                == positions_view(old(out)@) + param_positions_from(params@, place, role@, 0),
        decreases params.len() - i,
    {
        let ghost before = positions_view(out@);
        push_optional(out, &params[i].ty, place, role.duplicate());
        assert(positions_view(out@) + param_positions_from(params@, place, role@, i + 1)
            =~= before + param_positions_from(params@, place, role@, i as int));
        i += 1;
    }
    assert(positions_view(out@) =~= positions_view(old(out)@) + param_positions_from(
        params@,
        place,
        role@,
        0,
    ));
}

fn push_lets<'m>(out: &mut Vec<TypePosition<'m>>, body: &'m Block, role: FunctionRole<'m>)
    ensures
        positions_view(final(out)@) == positions_view(old(out)@) + let_positions_from(
            body.stmts@,
            role@,
            0,
        ),
{
    let mut i: usize = 0;
    while i < body.stmts.len()
        invariant
            i <= body.stmts.len(),
            positions_view(out@) + let_positions_from(body.stmts@, role@, i as int)
                == positions_view(old(out)@) + let_positions_from(body.stmts@, role@, 0),
        decreases body.stmts.len() - i,
    {
        let ghost before = positions_view(out@);
        match &body.stmts[i] {
            Stmt::Let { ty, .. } => push_optional(
                out,
                ty,
                TypePlace::LocalBinding,
                role.duplicate(),
            ),
            _ => {},
        }
        assert(positions_view(out@) + let_positions_from(body.stmts@, role@, i + 1) =~= before
            + let_positions_from(body.stmts@, role@, i as int));
        i += 1;
    }
    assert(positions_view(out@) =~= positions_view(old(out)@) + let_positions_from(
        body.stmts@,
        role@,
        0,
    ));
}

fn push_function<'m>(
    out: &mut Vec<TypePosition<'m>>,
    function: &'m Function,
    role: FunctionRole<'m>,
)
    ensures
        positions_view(final(out)@) == positions_view(old(out)@) + function_positions(
            *function,
            role@,
        ),
{
    push_params(out, &function.params, TypePlace::Parameter, role.duplicate());
    push_optional(out, &function.ret_type, TypePlace::FunctionReturn, role.duplicate());
    push_lets(out, &function.body, role.duplicate());
    assert(positions_view(out@) =~= positions_view(old(out)@) + function_positions(
        *function,
        role@,
    ));
}

pub open spec fn optional_text(text: Option<&str>) -> Option<Seq<char>> {
    match text {
        Some(text) => Some(text@),
        None => None,
    }
}

fn push_methods<'m>(
    out: &mut Vec<TypePosition<'m>>,
    methods: &'m Vec<Function>,
    owner: Option<&'m str>,
)
    ensures
        positions_view(final(out)@) == positions_view(old(out)@) + method_positions_from(
            methods@,
            optional_text(owner),
            0,
        ),
{
    let ghost name = optional_text(owner);
    let mut i: usize = 0;
    while i < methods.len()
        invariant
            i <= methods.len(),
            name == optional_text(owner),
            positions_view(out@) + method_positions_from(methods@, name, i as int)
                == positions_view(old(out)@) + method_positions_from(methods@, name, 0),
        decreases methods.len() - i,
    {
        let ghost before = positions_view(out@);
        let method = &methods[i];
        let role = match owner {
            Some(owner) => FunctionRole::Method { owner, name: method.name.0.as_str() },
            None => FunctionRole::Ordinary,
        };
        push_function(out, method, role);
        assert(positions_view(out@) + method_positions_from(methods@, name, i + 1) =~= before
            + method_positions_from(methods@, name, i as int));
        i += 1;
    }
    assert(positions_view(out@) =~= positions_view(old(out)@) + method_positions_from(
        methods@,
        name,
        0,
    ));
}

fn push_inline_impls<'m>(
    out: &mut Vec<TypePosition<'m>>,
    impls: &'m Vec<InlineImpl>,
    owner: Option<&'m str>,
)
    ensures
        positions_view(final(out)@) == positions_view(old(out)@) + inline_positions_from(
            impls@,
            optional_text(owner),
            0,
        ),
{
    let ghost name = optional_text(owner);
    let mut i: usize = 0;
    while i < impls.len()
        invariant
            i <= impls.len(),
            name == optional_text(owner),
            positions_view(out@) + inline_positions_from(impls@, name, i as int)
                == positions_view(old(out)@) + inline_positions_from(impls@, name, 0),
        decreases impls.len() - i,
    {
        let ghost before = positions_view(out@);
        push_methods(out, &impls[i].methods, owner);
        assert(positions_view(out@) + inline_positions_from(impls@, name, i + 1) =~= before
            + inline_positions_from(impls@, name, i as int));
        i += 1;
    }
    assert(positions_view(out@) =~= positions_view(old(out)@) + inline_positions_from(
        impls@,
        name,
        0,
    ));
}

fn push_fields<'m>(out: &mut Vec<TypePosition<'m>>, fields: &'m Vec<FieldDef>)
    ensures
        positions_view(final(out)@) == positions_view(old(out)@) + field_positions_from(fields@, 0),
{
    let mut i: usize = 0;
    while i < fields.len()
        invariant
            i <= fields.len(),
            positions_view(out@) + field_positions_from(fields@, i as int) == positions_view(
                old(out)@,
            ) + field_positions_from(fields@, 0),
        decreases fields.len() - i,
    {
        let ghost before = positions_view(out@);
        push_position(out, &fields[i].ty, TypePlace::StructField, FunctionRole::Ordinary);
        assert(positions_view(out@) + field_positions_from(fields@, i + 1) =~= before
            + field_positions_from(fields@, i as int));
        i += 1;
    }
    assert(positions_view(out@) =~= positions_view(old(out)@) + field_positions_from(fields@, 0));
}

fn push_variants<'m>(out: &mut Vec<TypePosition<'m>>, variants: &'m Vec<EnumVariantDef>)
    ensures
        positions_view(final(out)@) == positions_view(old(out)@) + variant_positions_from(
            variants@,
            0,
        ),
{
    let mut i: usize = 0;
    while i < variants.len()
        invariant
            i <= variants.len(),
            positions_view(out@) + variant_positions_from(variants@, i as int) == positions_view(
                old(out)@,
            ) + variant_positions_from(variants@, 0),
        decreases variants.len() - i,
    {
        let ghost before = positions_view(out@);
        push_optional(out, &variants[i].payload, TypePlace::EnumPayload, FunctionRole::Ordinary);
        assert(positions_view(out@) + variant_positions_from(variants@, i + 1) =~= before
            + variant_positions_from(variants@, i as int));
        i += 1;
    }
    assert(positions_view(out@) =~= positions_view(old(out)@) + variant_positions_from(
        variants@,
        0,
    ));
}

fn push_interface<'m>(out: &mut Vec<TypePosition<'m>>, methods: &'m Vec<InterfaceMethod>)
    ensures
        positions_view(final(out)@) == positions_view(old(out)@) + interface_positions_from(
            methods@,
            0,
        ),
{
    let mut i: usize = 0;
    while i < methods.len()
        invariant
            i <= methods.len(),
            positions_view(out@) + interface_positions_from(methods@, i as int) == positions_view(
                old(out)@,
            ) + interface_positions_from(methods@, 0),
        decreases methods.len() - i,
    {
        let ghost before = positions_view(out@);
        push_params(
            out,
            &methods[i].params,
            TypePlace::InterfaceParameter,
            FunctionRole::Ordinary,
        );
        push_optional(
            out,
            &methods[i].ret_type,
            TypePlace::InterfaceReturn,
            FunctionRole::Ordinary,
        );
        assert(positions_view(out@) + interface_positions_from(methods@, i + 1) =~= before
            + interface_positions_from(methods@, i as int));
        i += 1;
    }
    assert(positions_view(out@) =~= positions_view(old(out)@) + interface_positions_from(
        methods@,
        0,
    ));
}

/// Collects every type that is written in an item.
pub fn collect_item_positions(item: &Item) -> (positions: Vec<TypePosition<'_>>)
    ensures
        positions_view(positions@) == item_positions(*item),
{
    let mut out: Vec<TypePosition<'_>> = Vec::new();
    assert(positions_view(out@) =~= Seq::empty());
    match item {
        Item::Struct(definition) => {
            let owner = Some(definition.name.0.as_str());
            push_fields(&mut out, &definition.fields);
            push_methods(&mut out, &definition.methods, owner);
            push_inline_impls(&mut out, &definition.inline_impls, owner);
        },
        Item::Enum(definition) => push_variants(&mut out, &definition.variants),
        Item::Interface(definition) => push_interface(&mut out, &definition.methods),
        Item::Impl(block) => push_methods(&mut out, &block.methods, None),
        Item::Function(function) => push_function(
            &mut out,
            function,
            FunctionRole::Free { name: function.name.0.as_str() },
        ),
        Item::ExternFunction(function) => {
            push_params(
                &mut out,
                &function.params,
                TypePlace::ForeignParameter,
                FunctionRole::Ordinary,
            );
            push_optional(
                &mut out,
                &function.ret_type,
                TypePlace::ForeignReturn,
                FunctionRole::Ordinary,
            );
        },
        Item::Const(definition) => push_position(
            &mut out,
            &definition.ty,
            TypePlace::ConstType,
            FunctionRole::Ordinary,
        ),
    }
    assert(positions_view(out@) =~= item_positions(*item));
    out
}

/// How a place is called in diagnostics.
pub open spec fn place_text(place: TypePlace) -> Seq<char> {
    match place {
        TypePlace::StructField => "a struct field"@,
        TypePlace::Parameter => "a nested parameter type"@,
        TypePlace::FunctionReturn => "a function return type"@,
        TypePlace::LocalBinding => "a nested local type"@,
        TypePlace::EnumPayload => "an enum payload"@,
        TypePlace::InterfaceParameter => "a nested interface parameter type"@,
        TypePlace::InterfaceReturn => "an interface return type"@,
        TypePlace::ForeignParameter => "an extern parameter type"@,
        TypePlace::ForeignReturn => "an extern return type"@,
        TypePlace::ConstType => "a const type"@,
    }
}

fn place_label(place: TypePlace) -> (label: &'static str)
    ensures
        label@ == place_text(place),
{
    match place {
        TypePlace::StructField => "a struct field",
        TypePlace::Parameter => "a nested parameter type",
        TypePlace::FunctionReturn => "a function return type",
        TypePlace::LocalBinding => "a nested local type",
        TypePlace::EnumPayload => "an enum payload",
        TypePlace::InterfaceParameter => "a nested interface parameter type",
        TypePlace::InterfaceReturn => "an interface return type",
        TypePlace::ForeignParameter => "an extern parameter type",
        TypePlace::ForeignReturn => "an extern return type",
        TypePlace::ConstType => "a const type",
    }
}

/// The places where a lexical value may stand directly.
pub open spec fn direct_place(place: TypePlace) -> bool {
    place == TypePlace::Parameter || place == TypePlace::LocalBinding || place
        == TypePlace::InterfaceParameter
}

fn is_direct_place(place: TypePlace) -> (direct: bool)
    ensures
        direct == direct_place(place),
{
    match place {
        TypePlace::Parameter | TypePlace::LocalBinding | TypePlace::InterfaceParameter => true,
        _ => false,
    }
}

/// Whether a borrowed callable is part of the type.
pub open spec fn holds_borrowed_callable(ty: TypeView) -> bool
    decreases ty,
{
    match ty {
        TypeView::BorrowedFunction { .. } => true,
        TypeView::Array(inner, _) => holds_borrowed_callable(*inner),
        TypeView::Own(inner) => holds_borrowed_callable(*inner),
        TypeView::RawPtr(inner) => holds_borrowed_callable(*inner),
        TypeView::Shared(inner) => holds_borrowed_callable(*inner),
        TypeView::Ref(inner, _) => holds_borrowed_callable(*inner),
        TypeView::App { args, .. } => any_holds_borrowed_callable(args),
        TypeView::Tuple(args) => any_holds_borrowed_callable(args),
        TypeView::Function { params, ret } => holds_borrowed_callable(*ret) || any_holds_borrowed_callable(params),
        _ => false,
    }
}

pub open spec fn any_holds_borrowed_callable(types: Seq<TypeView>) -> bool
    decreases types,
{
    exists|i: int| 0 <= i < types.len() && holds_borrowed_callable(#[trigger] types[i])
}

fn type_contains_borrowed_callable(ty: &Type) -> (found: bool)
    ensures
        found == holds_borrowed_callable(ty@),
    decreases ty,
{
    match ty {
        Type::BorrowedFunction { .. } => true,
        Type::Array(inner, _) => type_contains_borrowed_callable(inner),
        Type::Own(inner) => type_contains_borrowed_callable(inner),
        Type::RawPtr(inner) => type_contains_borrowed_callable(inner),
        Type::Shared(inner) => type_contains_borrowed_callable(inner),
        Type::Ref(inner, _) => type_contains_borrowed_callable(inner),
        Type::App { args, .. } => any_contains_borrowed_callable(args),
        Type::Tuple(args) => any_contains_borrowed_callable(args),
        Type::Function { params, ret } => any_contains_borrowed_callable(params)
            || type_contains_borrowed_callable(ret),
        _ => false,
    }
}

fn any_contains_borrowed_callable(types: &Vec<Type>) -> (found: bool)
    ensures
        found == any_holds_borrowed_callable(types_view(types@)),
    decreases types,
{
    let ghost views = types_view(types@);
    let mut i: usize = 0;
    while i < types.len()
        invariant
            i <= types.len(),
            views == types_view(types@),
            forall|j: int| 0 <= j < i ==> !holds_borrowed_callable(#[trigger] views[j]),
        decreases types.len() - i,
    {
        assert(views[i as int] == types[i as int]@);
        if type_contains_borrowed_callable(&types[i]) {
            return true;
        }
        i += 1;
    }
    false
}

/// The problem of a borrowed callable at a place where it would escape.
pub open spec fn borrowed_callable_errors(
    ctx: ResolverContext,
    position: TypePositionView,
) -> Seq<DiagnosticView> {
    match ctx.denoted_type(position.ty) {
        Some(ty) => if holds_borrowed_callable(ty) && !(direct_place(position.place)
            && ty is BorrowedFunction) {
            seq![
                error_view(
                    "a borrowed callable is noescape and cannot appear in "@ + place_text(
                        position.place,
                    ) + "; use a direct Fn/FnMut parameter or local binding"@,
                    Some(position.ty.position()),
                ),
            ]
        } else {
            Seq::empty()
        },
        None => Seq::empty(),
    }
}

fn report(diagnostics: &mut Vec<Diagnostic>, message: String, span: Option<Span>)
    ensures
        diagnostics_view(final(diagnostics)@) == diagnostics_view(old(diagnostics)@) + seq![
            error_view(message@, span),
        ],
{
    push_error(diagnostics, message, span);
    assert(diagnostics_view(diagnostics@) =~= diagnostics_view(old(diagnostics)@) + seq![
        error_view(message@, span),
    ]);
}

fn reject_borrowed_callable_type(
    position: &TypePosition<'_>,
    ctx: &ResolverContext,
    diagnostics: &mut Vec<Diagnostic>,
)
    ensures
        diagnostics_view(final(diagnostics)@) == diagnostics_view(old(diagnostics)@)
            + borrowed_callable_errors(*ctx, position@),
{
    match resolve_type_expr_to_type(position.ty, ctx) {
        Some(ty) => {
            let direct = match &ty {
                Type::BorrowedFunction { .. } => true,
                _ => false,
            };
            if type_contains_borrowed_callable(&ty) && !(is_direct_place(position.place)
                && direct) {
                let message = concat3(
                    "a borrowed callable is noescape and cannot appear in ",
                    place_label(position.place),
                    "; use a direct Fn/FnMut parameter or local binding",
                );
                report(diagnostics, message, Some(position.ty.span()));
            }
        },
        None => {},
    }
}

/// The problems of the positions from `i` on.
pub open spec fn borrowed_positions_errors(
    ctx: ResolverContext,
    positions: Seq<TypePositionView>,
    i: int,
) -> Seq<DiagnosticView>
    decreases positions.len() - i,
{
    if i < 0 || i >= positions.len() {
        Seq::empty()
    } else {
        borrowed_callable_errors(ctx, positions[i]) + borrowed_positions_errors(
            ctx,
            positions,
            i + 1,
        )
    }
}

/// The borrowed-callable problems of the items from `i` on.
pub open spec fn borrowed_items_errors(
    ctx: ResolverContext,
    items: Seq<Item>,
    i: int,
) -> Seq<DiagnosticView>
    decreases items.len() - i,
{
    if i < 0 || i >= items.len() {
        Seq::empty()
    } else {
        borrowed_positions_errors(ctx, item_positions(items[i]), 0) + borrowed_items_errors(
            ctx,
            items,
            i + 1,
        )
    }
}

fn validate_borrowed_callable_placements(
    module: &Module,
    ctx: &ResolverContext,
    diagnostics: &mut Vec<Diagnostic>,
)
    ensures
        diagnostics_view(final(diagnostics)@) == diagnostics_view(old(diagnostics)@)
            + borrowed_items_errors(*ctx, module.items@, 0),
{
    let ghost start = diagnostics_view(diagnostics@);
    let mut i: usize = 0;
    while i < module.items.len()
        invariant
            i <= module.items.len(),
            diagnostics_view(diagnostics@) + borrowed_items_errors(*ctx, module.items@, i as int)
                == start + borrowed_items_errors(*ctx, module.items@, 0),
        decreases module.items.len() - i,
    {
        let ghost before = diagnostics_view(diagnostics@);
        let positions = collect_item_positions(&module.items[i]);
        let ghost views = positions_view(positions@);
        let mut k: usize = 0;
        while k < positions.len()
            invariant
                k <= positions.len(),
                views == positions_view(positions@),
                diagnostics_view(diagnostics@) + borrowed_positions_errors(*ctx, views, k as int)
                    == before + borrowed_positions_errors(*ctx, views, 0),
            decreases positions.len() - k,
        {
            let ghost earlier = diagnostics_view(diagnostics@);
            assert(views[k as int] == positions[k as int]@);
            reject_borrowed_callable_type(&positions[k], ctx, diagnostics);
            assert(diagnostics_view(diagnostics@) + borrowed_positions_errors(*ctx, views, k + 1)
                =~= earlier + borrowed_positions_errors(*ctx, views, k as int));
            k += 1;
        }
        assert(diagnostics_view(diagnostics@) + borrowed_items_errors(*ctx, module.items@, i + 1)
            =~= before + borrowed_items_errors(*ctx, module.items@, i as int));
        i += 1;
    }
    assert(diagnostics_view(diagnostics@) =~= start + borrowed_items_errors(
        *ctx,
        module.items@,
        0,
    ));
}

/// Whether a scope token or a scoped join handle is part of the type.
pub open spec fn holds_scoped_token(ty: TypeView) -> bool
    decreases ty,
{
    match ty {
        TypeView::Named(name) => name == SCOPED_THREAD_SCOPE_TYPE@,
        TypeView::App { base, args } => base == SCOPED_THREAD_HANDLE_TYPE@ || any_holds_scoped_token(args),
        TypeView::Array(inner, _) => holds_scoped_token(*inner),
        TypeView::Own(inner) => holds_scoped_token(*inner),
        TypeView::RawPtr(inner) => holds_scoped_token(*inner),
        TypeView::Shared(inner) => holds_scoped_token(*inner),
        TypeView::Ref(inner, _) => holds_scoped_token(*inner),
        TypeView::Tuple(elements) => any_holds_scoped_token(elements),
        TypeView::Function { params, ret } => holds_scoped_token(*ret) || any_holds_scoped_token(params),
        TypeView::BorrowedFunction { params, ret, .. } => holds_scoped_token(*ret) || any_holds_scoped_token(params),
        _ => false,
    }
}

pub open spec fn any_holds_scoped_token(types: Seq<TypeView>) -> bool
    decreases types,
{
    exists|i: int| 0 <= i < types.len() && holds_scoped_token(#[trigger] types[i])
}

fn type_contains_scoped_thread_value(ty: &Type) -> (found: bool)
    ensures
        found == holds_scoped_token(ty@),
    decreases ty,
{
    match ty {
        Type::Named(name) => same_text(name.as_str(), SCOPED_THREAD_SCOPE_TYPE),
        Type::App { base, args } => same_text(base.as_str(), SCOPED_THREAD_HANDLE_TYPE)
            || any_contains_scoped_thread_value(args),
        Type::Array(inner, _) => type_contains_scoped_thread_value(inner),
        Type::Own(inner) => type_contains_scoped_thread_value(inner),
        Type::RawPtr(inner) => type_contains_scoped_thread_value(inner),
        Type::Shared(inner) => type_contains_scoped_thread_value(inner),
        Type::Ref(inner, _) => type_contains_scoped_thread_value(inner),
        Type::Tuple(elements) => any_contains_scoped_thread_value(elements),
        Type::Function { params, ret } => any_contains_scoped_thread_value(params)
            || type_contains_scoped_thread_value(ret),
        Type::BorrowedFunction { params, ret, .. } => any_contains_scoped_thread_value(params)
            || type_contains_scoped_thread_value(ret),
        _ => false,
    }
}

fn any_contains_scoped_thread_value(types: &Vec<Type>) -> (found: bool)
    ensures
        found == any_holds_scoped_token(types_view(types@)),
    decreases types,
{
    let ghost views = types_view(types@);
    let mut i: usize = 0;
    while i < types.len()
        invariant
            i <= types.len(),
            views == types_view(types@),
            forall|j: int| 0 <= j < i ==> !holds_scoped_token(#[trigger] views[j]),
        decreases types.len() - i,
    {
        assert(views[i as int] == types[i as int]@);
        if type_contains_scoped_thread_value(&types[i]) {
            return true;
        }
        i += 1;
    }
    false
}

/// Whether every scoped-thread name in a type expression denotes the standard
/// library's declaration.
pub open spec fn scoped_names_are_canonical(ty: TypeExprView, ctx: ResolverContext) -> bool
    decreases ty,
{
    match ty {
        TypeExprView::Path { segments, .. } => {
            let name = joined(segments, "::"@);
            if segments.len() > 0 && segments.last() == "Scope"@ {
                ctx.names_struct(name, "std/thread"@, "Scope"@)
            } else if segments.len() > 0 && segments.last() == "ScopedJoinHandle"@ {
                ctx.names_struct(name, "std/thread"@, "ScopedJoinHandle"@)
            } else {
                true
            }
        },
        TypeExprView::App { base, args, .. } => scoped_names_are_canonical(*base, ctx) && all_scoped_names_are_canonical(args, ctx),
        TypeExprView::Ref { inner, .. } => scoped_names_are_canonical(*inner, ctx),
        TypeExprView::Array { elem, .. } => scoped_names_are_canonical(*elem, ctx),
        TypeExprView::Tuple { elements, .. } => all_scoped_names_are_canonical(elements, ctx),
    }
}

pub open spec fn all_scoped_names_are_canonical(types: Seq<TypeExprView>, ctx: ResolverContext) -> bool
    decreases types,
{
    forall|i: int| 0 <= i < types.len() ==> scoped_names_are_canonical(#[trigger] types[i], ctx)
}

fn scoped_thread_identity_is_resolver_issued(ty: &TypeExpr, ctx: &ResolverContext) -> (issued: bool)
    ensures
        issued == scoped_names_are_canonical(ty@, *ctx),
    decreases ty,
{
    match ty {
        TypeExpr::Path { segments, .. } => {
            if segments.len() == 0 {
                return true;
            }
            let name = join(segments, "::");
            let leaf = &segments[segments.len() - 1];
            assert(texts_view(segments@).last() == leaf@);
            if same_text(leaf.as_str(), "Scope") {
                ctx.is_struct_symbol(name.as_str(), "std/thread", "Scope")
            } else if same_text(leaf.as_str(), "ScopedJoinHandle") {
                ctx.is_struct_symbol(name.as_str(), "std/thread", "ScopedJoinHandle")
            } else {
                true
            }
        },
        TypeExpr::App { base, args, .. } => scoped_thread_identity_is_resolver_issued(base, ctx)
            && all_scoped_identities_are_issued(args, ctx),
        TypeExpr::Ref { inner, .. } => scoped_thread_identity_is_resolver_issued(inner, ctx),
        TypeExpr::Array { elem, .. } => scoped_thread_identity_is_resolver_issued(elem, ctx),
        TypeExpr::Tuple { elements, .. } => all_scoped_identities_are_issued(elements, ctx),
    }
}

fn all_scoped_identities_are_issued(types: &Vec<TypeExpr>, ctx: &ResolverContext) -> (issued: bool)
    ensures
        issued == all_scoped_names_are_canonical(type_exprs_view(types@), *ctx),
    decreases types,
{
    let ghost views = type_exprs_view(types@);
    let mut i: usize = 0;
    while i < types.len()
        invariant
            i <= types.len(),
            views == type_exprs_view(types@),
            forall|j: int| 0 <= j < i ==> scoped_names_are_canonical(#[trigger] views[j], *ctx),
        decreases types.len() - i,
    {
        assert(views[i as int] == types[i as int]@);
        if !scoped_thread_identity_is_resolver_issued(&types[i], ctx) {
            return false;
        }
        i += 1;
    }
    true
}

/// Whether a type is a scope token, a scoped handle, or a reference to a scope.
pub open spec fn is_direct_scoped_type(ty: TypeView) -> bool {
    ||| ty == TypeView::Named(SCOPED_THREAD_SCOPE_TYPE@)
    ||| ty == TypeView::Named(SCOPED_THREAD_HANDLE_TYPE@)
    ||| canonical_argument(ty, SCOPED_THREAD_HANDLE_TYPE@) is Some
    ||| ty matches TypeView::Ref(inner, _) && *inner == TypeView::Named(SCOPED_THREAD_SCOPE_TYPE@)
}

fn is_direct_scoped(ty: &Type) -> (direct: bool)
    ensures
        direct == is_direct_scoped_type(ty@),
{
    if is_canonical_scoped_thread_handle(ty) {
        return true;
    }
    match ty {
        Type::Named(name) => same_text(name.as_str(), SCOPED_THREAD_SCOPE_TYPE) || same_text(
            name.as_str(),
            SCOPED_THREAD_HANDLE_TYPE,
        ),
        Type::Ref(inner, _) => {
            let target: &Type = inner;
            assert(*(ty@->Ref_0) == target@);
            match target {
                Type::Named(name) => same_text(name.as_str(), SCOPED_THREAD_SCOPE_TYPE),
                _ => false,
            }
        },
        _ => false,
    }
}

/// The problem of a scoped-thread token at a place where it would leave its
/// lexical binding.
pub open spec fn scoped_type_errors(
    ctx: ResolverContext,
    ty: TypeExprView,
    allow_direct: bool,
    place: TypePlace,
) -> Seq<DiagnosticView> {
    match ctx.denoted_type(ty) {
        Some(resolved) => if !holds_scoped_token(resolved) {
            Seq::empty()
        } else if !scoped_names_are_canonical(ty, ctx) {
            seq![
                error_view(
                    "Scope and ScopedJoinHandle are compiler-owned identities and must resolve from std/thread"@,
                    Some(ty.position()),
                ),
            ]
        } else if allow_direct && is_direct_scoped_type(resolved) {
            Seq::empty()
        } else {
            seq![
                error_view(
                    "a scoped-thread token cannot appear in "@ + place_text(place)
                        + "; Scope and ScopedJoinHandle values must remain in direct lexical bindings"@,
                    Some(ty.position()),
                ),
            ]
        },
        None => Seq::empty(),
    }
}

fn reject_scoped_thread_type(
    ty: &TypeExpr,
    allow_direct: bool,
    place: TypePlace,
    ctx: &ResolverContext,
    diagnostics: &mut Vec<Diagnostic>,
)
    ensures
        diagnostics_view(final(diagnostics)@) == diagnostics_view(old(diagnostics)@)
            + scoped_type_errors(*ctx, ty@, allow_direct, place),
{
    let resolved = match resolve_type_expr_to_type(ty, ctx) {
        Some(resolved) => resolved,
        None => {
            return ;
        },
    };
    if !type_contains_scoped_thread_value(&resolved) {
        return ;
    }
    if !scoped_thread_identity_is_resolver_issued(ty, ctx) {
        report(
            diagnostics,
            "Scope and ScopedJoinHandle are compiler-owned identities and must resolve from std/thread".to_owned(),
            Some(ty.span()),
        );
        return ;
    }
    if !(allow_direct && is_direct_scoped(&resolved)) {
        let message = concat3(
            "a scoped-thread token cannot appear in ",
            place_label(place),
            "; Scope and ScopedJoinHandle values must remain in direct lexical bindings",
        );
        report(diagnostics, message, Some(ty.span()));
    }
}

/// Whether the standard library's thread module is being compiled.
pub open spec fn compiles_thread_module(ctx: ResolverContext) -> bool {
    ctx.current_module matches Some(module) && module@ == "std/thread"@
}

/// Whether `scope` denotes the intrinsic scope function.
pub open spec fn scope_is_canonical(ctx: ResolverContext) -> bool {
    compiles_thread_module(ctx) || ctx.names_function("scope"@, "std/thread"@, "scope"@)
}

/// Whether `Scope` denotes the intrinsic scope type.
pub open spec fn scope_type_is_canonical(ctx: ResolverContext) -> bool {
    compiles_thread_module(ctx) || ctx.names_struct("Scope"@, "std/thread"@, "Scope"@)
}

/// Whether a function may return a scoped handle: only the intrinsic spawn.
pub open spec fn returns_scoped_handle(ctx: ResolverContext, role: FunctionRoleView) -> bool {
    match role {
        FunctionRoleView::Ordinary => false,
        FunctionRoleView::Method { owner, name } => scope_type_is_canonical(ctx) && owner
            == "Scope"@ && name == "spawn"@,
        FunctionRoleView::Free { name } => scope_is_canonical(ctx) && name == "Scope::spawn"@,
    }
}

/// Whether a function takes the scope callback: only the intrinsic scope.
pub open spec fn takes_scope_callback(ctx: ResolverContext, role: FunctionRoleView) -> bool {
    match role {
        FunctionRoleView::Free { name } => scope_is_canonical(ctx) && name == "scope"@,
        _ => false,
    }
}

/// The scoped-thread problems at one position. Bindings inside a body are not
/// examined here.
pub open spec fn scoped_position_errors(
    ctx: ResolverContext,
    position: TypePositionView,
) -> Seq<DiagnosticView> {
    match position.place {
        TypePlace::LocalBinding => Seq::empty(),
        TypePlace::Parameter => if takes_scope_callback(ctx, position.role) {
            Seq::empty()
        } else {
            scoped_type_errors(ctx, position.ty, true, position.place)
        },
        TypePlace::InterfaceParameter => scoped_type_errors(ctx, position.ty, true, position.place),
        TypePlace::FunctionReturn => if returns_scoped_handle(ctx, position.role) {
            Seq::empty()
        } else {
            scoped_type_errors(ctx, position.ty, false, position.place)
        },
        _ => scoped_type_errors(ctx, position.ty, false, position.place),
    }
}

pub open spec fn scoped_positions_errors(
    ctx: ResolverContext,
    positions: Seq<TypePositionView>,
    i: int,
) -> Seq<DiagnosticView>
    decreases positions.len() - i,
{
    if i < 0 || i >= positions.len() {
        Seq::empty()
    } else {
        scoped_position_errors(ctx, positions[i]) + scoped_positions_errors(ctx, positions, i + 1)
    }
}

/// The scoped-thread problems of the items from `i` on.
pub open spec fn scoped_items_errors(
    ctx: ResolverContext,
    items: Seq<Item>,
    i: int,
) -> Seq<DiagnosticView>
    decreases items.len() - i,
{
    if i < 0 || i >= items.len() {
        Seq::empty()
    } else {
        scoped_positions_errors(ctx, item_positions(items[i]), 0) + scoped_items_errors(
            ctx,
            items,
            i + 1,
        )
    }
}

fn validate_scoped_position(
    position: &TypePosition<'_>,
    canonical_scope: bool,
    canonical_scope_type: bool,
    ctx: &ResolverContext,
    diagnostics: &mut Vec<Diagnostic>,
)
    requires
        canonical_scope == scope_is_canonical(*ctx),
        canonical_scope_type == scope_type_is_canonical(*ctx),
    ensures
        diagnostics_view(final(diagnostics)@) == diagnostics_view(old(diagnostics)@)
            + scoped_position_errors(*ctx, position@),
{
    match position.place {
        TypePlace::LocalBinding => {},
        TypePlace::Parameter => {
            let callback = match &position.role {
                FunctionRole::Free { name } => canonical_scope && same_text(name, "scope"),
                _ => false,
            };
            if !callback {
                reject_scoped_thread_type(position.ty, true, position.place, ctx, diagnostics);
            }
        },
        TypePlace::InterfaceParameter => {
            reject_scoped_thread_type(position.ty, true, position.place, ctx, diagnostics);
        },
        TypePlace::FunctionReturn => {
            let intrinsic = match &position.role {
                FunctionRole::Ordinary => false,
                FunctionRole::Method { owner, name } => canonical_scope_type && same_text(
                    owner,
                    "Scope",
                ) && same_text(name, "spawn"),
                FunctionRole::Free { name } => canonical_scope && same_text(name, "Scope::spawn"),
            };
            if !intrinsic {
                reject_scoped_thread_type(position.ty, false, position.place, ctx, diagnostics);
            }
        },
        _ => {
            reject_scoped_thread_type(position.ty, false, position.place, ctx, diagnostics);
        },
    }
}

fn validate_scoped_thread_placements(
    module: &Module,
    ctx: &ResolverContext,
    diagnostics: &mut Vec<Diagnostic>,
)
    ensures
        diagnostics_view(final(diagnostics)@) == diagnostics_view(old(diagnostics)@)
            + scoped_items_errors(*ctx, module.items@, 0),
{
    let compiling_thread_module = match &ctx.current_module {
        Some(current) => same_text(current.as_str(), "std/thread"),
        None => false,
    };
    let canonical_scope = compiling_thread_module || ctx.is_function_symbol(
        "scope",
        "std/thread",
        "scope",
    );
    let canonical_scope_type = compiling_thread_module || ctx.is_struct_symbol(
        "Scope",
        "std/thread",
        "Scope",
    );
    let ghost start = diagnostics_view(diagnostics@);
    let mut i: usize = 0;
    while i < module.items.len()
        invariant
            i <= module.items.len(),
            canonical_scope == scope_is_canonical(*ctx),
            canonical_scope_type == scope_type_is_canonical(*ctx),
            diagnostics_view(diagnostics@) + scoped_items_errors(*ctx, module.items@, i as int)
                == start + scoped_items_errors(*ctx, module.items@, 0),
        decreases module.items.len() - i,
    {
        let ghost before = diagnostics_view(diagnostics@);
        let positions = collect_item_positions(&module.items[i]);
        let ghost views = positions_view(positions@);
        let mut k: usize = 0;
        while k < positions.len()
            invariant
                k <= positions.len(),
                views == positions_view(positions@),
                canonical_scope == scope_is_canonical(*ctx),
                canonical_scope_type == scope_type_is_canonical(*ctx),
                diagnostics_view(diagnostics@) + scoped_positions_errors(*ctx, views, k as int)
                    == before + scoped_positions_errors(*ctx, views, 0),
            decreases positions.len() - k,
        {
            let ghost earlier = diagnostics_view(diagnostics@);
            assert(views[k as int] == positions[k as int]@);
            validate_scoped_position(
                &positions[k],
                canonical_scope,
                canonical_scope_type,
                ctx,
                diagnostics,
            );
            assert(diagnostics_view(diagnostics@) + scoped_positions_errors(*ctx, views, k + 1)
                =~= earlier + scoped_positions_errors(*ctx, views, k as int));
            k += 1;
        }
        assert(diagnostics_view(diagnostics@) + scoped_items_errors(*ctx, module.items@, i + 1)
            =~= before + scoped_items_errors(*ctx, module.items@, i as int));
        i += 1;
    }
    assert(diagnostics_view(diagnostics@) =~= start + scoped_items_errors(*ctx, module.items@, 0));
}

/// The scalar types that can be hashed without an implementation.
pub open spec fn hashable_scalar(ty: TypeView) -> bool {
    match ty {
        TypeView::I8 | TypeView::I32 | TypeView::I64 | TypeView::U8 | TypeView::U32
        | TypeView::U64 | TypeView::Usize | TypeView::Bool | TypeView::Char
        | TypeView::RawPtr(_) | TypeView::Ref(_, _) | TypeView::String | TypeView::Str => true,
        _ => false,
    }
}

fn is_hashable_scalar(ty: &Type) -> (hashable: bool)
    ensures
        hashable == hashable_scalar(ty@),
{
    match ty {
        Type::I8 | Type::I32 | Type::I64 | Type::U8 | Type::U32 | Type::U64 | Type::Usize
        | Type::Bool | Type::Char | Type::RawPtr(_) | Type::Ref(_, _) | Type::String
        | Type::Str => true,
        _ => false,
    }
}

/// Whether an item declares or gives `Hash` to the struct called `name`.
pub open spec fn item_gives_hash(item: Item, name: Seq<char>) -> bool {
    match item {
        Item::Struct(definition) => definition.name.0@ == name && (names_hash(
            definition.interfaces@,
        ) || implements_hash(definition.inline_impls@)),
        Item::Impl(block) => block.target.0@ == name && block.interface.0@ == HASH_INTERFACE@,
        _ => false,
    }
}

pub open spec fn names_hash(interfaces: Seq<Ident>) -> bool {
    exists|i: int| 0 <= i < interfaces.len() && (#[trigger] interfaces[i]).0@ == HASH_INTERFACE@
}

pub open spec fn implements_hash(impls: Seq<InlineImpl>) -> bool {
    exists|i: int| 0 <= i < impls.len() && (#[trigger] impls[i]).interface.0@ == HASH_INTERFACE@
}

/// Whether a module gives `Hash` to the struct called `name`.
pub open spec fn module_gives_hash(module: Module, name: Seq<char>) -> bool {
    exists|i: int| 0 <= i < module.items@.len() && item_gives_hash(#[trigger] module.items@[i], name)
}

fn lists_hash(interfaces: &Vec<Ident>) -> (found: bool)
    ensures
        found == names_hash(interfaces@),
{
    let mut i: usize = 0;
    while i < interfaces.len()
        invariant
            i <= interfaces.len(),
            forall|j: int| 0 <= j < i ==> (#[trigger] interfaces@[j]).0@ != HASH_INTERFACE@,
        decreases interfaces.len() - i,
    {
        if same_text(interfaces[i].0.as_str(), HASH_INTERFACE) {
            return true;
        }
        i += 1;
    }
    false
}

fn inlines_hash(impls: &Vec<InlineImpl>) -> (found: bool)
    ensures
        found == implements_hash(impls@),
{
    let mut i: usize = 0;
    while i < impls.len()
        invariant
            i <= impls.len(),
            forall|j: int| 0 <= j < i ==> (#[trigger] impls@[j]).interface.0@ != HASH_INTERFACE@,
        decreases impls.len() - i,
    {
        if same_text(impls[i].interface.0.as_str(), HASH_INTERFACE) {
            return true;
        }
        i += 1;
    }
    false
}

fn module_struct_has_hash(module: &Module, struct_name: &str) -> (found: bool)
    ensures
        found == module_gives_hash(*module, struct_name@),
{
    let mut i: usize = 0;
    while i < module.items.len()
        invariant
            i <= module.items.len(),
            forall|j: int|
                0 <= j < i ==> !item_gives_hash(#[trigger] module.items@[j], struct_name@),
        decreases module.items.len() - i,
    {
        let gives = match &module.items[i] {
            Item::Struct(definition) => same_text(definition.name.0.as_str(), struct_name) && (
            lists_hash(&definition.interfaces) || inlines_hash(&definition.inline_impls)),
            Item::Impl(block) => same_text(block.target.0.as_str(), struct_name) && same_text(
                block.interface.0.as_str(),
                HASH_INTERFACE,
            ),
            _ => false,
        };
        assert(gives == item_gives_hash(module.items@[i as int], struct_name@));
        if gives {
            return true;
        }
        i += 1;
    }
    false
}

/// Whether a struct can be hashed: an implementation is known, this module gives
/// one, or the module that declares the struct does.
pub open spec fn struct_is_hashable(
    name: Seq<char>,
    module: Module,
    ctx: ResolverContext,
) -> bool {
    ||| value_of(ctx.interface_impls@, name) matches Some(impls) && has_key(
        impls@,
        HASH_INTERFACE@,
    )
    ||| module_gives_hash(module, name)
    ||| declaring_module(ctx, name) matches Some((target, symbol)) && module_gives_hash(
        target,
        symbol,
    )
}

fn struct_supports_hash(struct_name: &str, module: &Module, ctx: &ResolverContext) -> (supported:
    bool)
    ensures
        supported == struct_is_hashable(struct_name@, *module, *ctx),
{
    match ctx.interface_impls.get(struct_name) {
        Some(impls) => {
            if impls.contains_key(HASH_INTERFACE) {
                return true;
            }
        },
        None => {},
    }
    if module_struct_has_hash(module, struct_name) {
        return true;
    }
    match &ctx.all_modules {
        Some(all) => match ctx.resolve_symbol(struct_name) {
            Some(ResolvedSymbol::Struct(module_id, symbol)) => match all.modules.get(
                module_id.as_str(),
            ) {
                Some(target) => module_struct_has_hash(target, symbol.as_str()),
                None => false,
            },
            _ => false,
        },
        None => false,
    }
}

/// The type that an expression denotes, or a named type with its source text.
pub open spec fn type_or_name(ctx: ResolverContext, ty: TypeExprView) -> TypeView {
    match ctx.denoted_type(ty) {
        Some(resolved) => resolved,
        None => TypeView::Named(type_expr_text(ty)),
    }
}

fn resolved_or_named(ctx: &ResolverContext, ty: &TypeExpr) -> (resolved: Type)
    ensures
        resolved@ == type_or_name(*ctx, ty@),
{
    match resolve_type_expr_to_type(ty, ctx) {
        Some(resolved) => resolved,
        None => Type::Named(type_expr_to_string(ty)),
    }
}

/// Whether a type can be a `Map` key.
pub open spec fn hashable_key(
    key: TypeExprView,
    ctx: ResolverContext,
    generics: Seq<Seq<char>>,
    module: Module,
) -> bool {
    let is_parameter = key matches TypeExprView::Path { segments, .. } && segments.len() == 1
        && generics.contains(segments[0]);
    let ty = type_or_name(ctx, key);
    is_parameter || hashable_scalar(ty) || match ty {
        TypeView::Named(name) => struct_is_hashable(name, module, ctx),
        TypeView::Param(_) => true,
        _ => false,
    }
}

pub(crate) fn contains_text(texts: &Vec<String>, text: &str) -> (found: bool)
    ensures
        found == texts_view(texts@).contains(text@),
{
    let ghost views = texts_view(texts@);
    let mut i: usize = 0;
    while i < texts.len()
        invariant
            i <= texts.len(),
            views == texts_view(texts@),
            forall|j: int| 0 <= j < i ==> views[j] != text@,
        decreases texts.len() - i,
    {
        if same_text(texts[i].as_str(), text) {
            assert(views[i as int] == text@);
            return true;
        }
        i += 1;
    }
    false
}

fn map_key_is_hashable(
    key: &TypeExpr,
    ctx: &ResolverContext,
    generics: &Vec<String>,
    module: &Module,
) -> (hashable: bool)
    ensures
        hashable == hashable_key(key@, *ctx, texts_view(generics@), *module),
{
    match key {
        TypeExpr::Path { segments, .. } => {
            if segments.len() == 1 {
                assert(texts_view(segments@)[0] == segments@[0]@);
                if contains_text(generics, segments[0].as_str()) {
                    return true;
                }
            }
        },
        _ => {},
    }
    let key_type = resolved_or_named(ctx, key);
    if is_hashable_scalar(&key_type) {
        return true;
    }
    match &key_type {
        Type::Named(name) => struct_supports_hash(name.as_str(), module, ctx),
        Type::Param(_) => true,
        _ => false,
    }
}

/// The problems of a generic application itself, its arguments aside.
pub open spec fn application_errors(
    name: Seq<char>,
    args: Seq<TypeExprView>,
    span: Span,
    ctx: ResolverContext,
    generics: Seq<Seq<char>>,
    module: Module,
) -> Seq<DiagnosticView> {
    if name == "Map"@ {
        if args.len() != 2 {
            seq![
                error_view(
                    "Map expects 2 type arguments but got "@ + decimal_text(args.len()),
                    Some(span),
                ),
            ]
        } else if !hashable_key(args[0], ctx, generics, module) {
            seq![
                error_view(
                    "Map key type '"@ + type_expr_text(args[0]) + "' must implement Hash"@,
                    Some(span),
                ),
            ]
        } else {
            Seq::empty()
        }
    } else if (name == "FnOnce"@ || name == "Fn"@ || name == "FnMut"@) && args.len() != 2 {
        seq![
            error_view(
                name + " expects 2 type arguments but got "@ + decimal_text(args.len()),
                Some(span),
            ),
        ]
    } else {
        Seq::empty()
    }
}

/// The problems of the generic applications in a type expression.
pub open spec fn map_type_errors(
    ty: TypeExprView,
    ctx: ResolverContext,
    generics: Seq<Seq<char>>,
    module: Module,
) -> Seq<DiagnosticView>
    decreases ty, 0nat,
{
    match ty {
        TypeExprView::App { base, args, span } => {
            let own = match *base {
                TypeExprView::Path { segments, .. } => application_errors(
                    joined(segments, "::"@),
                    args,
                    span,
                    ctx,
                    generics,
                    module,
                ),
                _ => Seq::empty(),
            };
            own + map_types_errors_from(args, ctx, generics, module, 0)
        },
        TypeExprView::Ref { inner, .. } => map_type_errors(*inner, ctx, generics, module),
        TypeExprView::Array { elem, .. } => map_type_errors(*elem, ctx, generics, module),
        TypeExprView::Tuple { elements, .. } => map_types_errors_from(
            elements,
            ctx,
            generics,
            module,
            0,
        ),
        TypeExprView::Path { .. } => Seq::empty(),
    }
}

pub open spec fn map_types_errors_from(
    types: Seq<TypeExprView>,
    ctx: ResolverContext,
    generics: Seq<Seq<char>>,
    module: Module,
    i: int,
) -> Seq<DiagnosticView>
    decreases types, types.len() - i,
{
    if i < 0 || i >= types.len() {
        Seq::empty()
    } else {
        map_type_errors(types[i], ctx, generics, module) + map_types_errors_from(
            types,
            ctx,
            generics,
            module,
            i + 1,
        )
    }
}

fn validate_application(
    name: &str,
    args: &Vec<TypeExpr>,
    span: Span,
    ctx: &ResolverContext,
    generics: &Vec<String>,
    module: &Module,
    diagnostics: &mut Vec<Diagnostic>,
)
    ensures
        diagnostics_view(final(diagnostics)@) == diagnostics_view(old(diagnostics)@)
            + application_errors(
            name@,
            type_exprs_view(args@),
            span,
            *ctx,
            texts_view(generics@),
            *module,
        ),
{
    let ghost views = type_exprs_view(args@);
    if same_text(name, "Map") {
        if args.len() != 2 {
            let mut message = "Map expects 2 type arguments but got ".to_owned();
            message.append(decimal(args.len() as u64).as_str());
            report(diagnostics, message, Some(span));
        } else {
            assert(views[0] == args@[0]@);
            if !map_key_is_hashable(&args[0], ctx, generics, module) {
                let message = concat3(
                    "Map key type '",
                    type_expr_to_string(&args[0]).as_str(),
                    "' must implement Hash",
                );
                report(diagnostics, message, Some(span));
            }
        }
    } else if (same_text(name, "FnOnce") || same_text(name, "Fn") || same_text(name, "FnMut"))
        && args.len() != 2 {
        let message = concat3(
            name,
            " expects 2 type arguments but got ",
            decimal(args.len() as u64).as_str(),
        );
        report(diagnostics, message, Some(span));
    }
}

fn validate_map_type_expr(
    ty: &TypeExpr,
    ctx: &ResolverContext,
    generics: &Vec<String>,
    module: &Module,
    diagnostics: &mut Vec<Diagnostic>,
)
    ensures
        diagnostics_view(final(diagnostics)@) == diagnostics_view(old(diagnostics)@)
            + map_type_errors(ty@, *ctx, texts_view(generics@), *module),
    decreases ty, 0nat,
{
    match ty {
        TypeExpr::App { base, args, span } => {
            let head: &TypeExpr = base;
            assert(*(ty@->base) == head@);
            match head {
                TypeExpr::Path { segments, .. } => {
                    let base_name = join(segments, "::");
                    validate_application(
                        base_name.as_str(),
                        args,
                        *span,
                        ctx,
                        generics,
                        module,
                        diagnostics,
                    );
                },
                _ => {},
            }
            validate_map_type_exprs(args, ctx, generics, module, diagnostics);
            assert(diagnostics_view(diagnostics@) =~= diagnostics_view(old(diagnostics)@)
                + map_type_errors(ty@, *ctx, texts_view(generics@), *module));
        },
        TypeExpr::Ref { inner, .. } => {
            validate_map_type_expr(inner, ctx, generics, module, diagnostics);
        },
        TypeExpr::Array { elem, .. } => {
            validate_map_type_expr(elem, ctx, generics, module, diagnostics);
        },
        TypeExpr::Tuple { elements, .. } => {
            validate_map_type_exprs(elements, ctx, generics, module, diagnostics);
        },
        TypeExpr::Path { .. } => {},
    }
}

fn validate_map_type_exprs(
    types: &Vec<TypeExpr>,
    ctx: &ResolverContext,
    generics: &Vec<String>,
    module: &Module,
    diagnostics: &mut Vec<Diagnostic>,
)
    ensures
        diagnostics_view(final(diagnostics)@) == diagnostics_view(old(diagnostics)@)
            + map_types_errors_from(
            type_exprs_view(types@),
            *ctx,
            texts_view(generics@),
            *module,
            0,
        ),
    decreases types, 0nat,
{
    let ghost views = type_exprs_view(types@);
    let ghost names = texts_view(generics@);
    let ghost start = diagnostics_view(diagnostics@);
    let mut i: usize = 0;
    while i < types.len()
        invariant
            i <= types.len(),
            views == type_exprs_view(types@),
            names == texts_view(generics@),
            diagnostics_view(diagnostics@) + map_types_errors_from(
                views,
                *ctx,
                names,
                *module,
                i as int,
            ) == start + map_types_errors_from(views, *ctx, names, *module, 0),
        decreases types.len() - i,
    {
        let ghost before = diagnostics_view(diagnostics@);
        assert(views[i as int] == types[i as int]@);
        validate_map_type_expr(&types[i], ctx, generics, module, diagnostics);
        assert(diagnostics_view(diagnostics@) + map_types_errors_from(
            views,
            *ctx,
            names,
            *module,
            i + 1,
        ) =~= before + map_types_errors_from(views, *ctx, names, *module, i as int));
        i += 1;
    }
    assert(diagnostics_view(diagnostics@) =~= start + map_types_errors_from(
        views,
        *ctx,
        names,
        *module,
        0,
    ));
}

/// The generic parameters in scope in an item.
pub open spec fn item_generics(item: Item, module: Module, ctx: ResolverContext) -> Seq<Seq<char>> {
    match item {
        Item::Struct(definition) => idents_view(definition.generic_params@),
        Item::Enum(definition) => idents_view(definition.generic_params@),
        Item::Impl(block) => generic_params_of(block.target.0@, module, ctx),
        _ => Seq::empty(),
    }
}

fn collect_item_generics(item: &Item, module: &Module, ctx: &ResolverContext) -> (generics: Vec<
    String,
>)
    ensures
        texts_view(generics@) == item_generics(*item, *module, *ctx),
{
    match item {
        Item::Struct(definition) => ident_names(&definition.generic_params),
        Item::Enum(definition) => ident_names(&definition.generic_params),
        Item::Impl(block) => struct_generic_params(block.target.0.as_str(), module, ctx),
        _ => {
            let none: Vec<String> = Vec::new();
            assert(texts_view(none@) =~= Seq::empty());
            none
        },
    }
}

pub open spec fn map_positions_errors(
    ctx: ResolverContext,
    module: Module,
    generics: Seq<Seq<char>>,
    positions: Seq<TypePositionView>,
    i: int,
) -> Seq<DiagnosticView>
    decreases positions.len() - i,
{
    if i < 0 || i >= positions.len() {
        Seq::empty()
    } else {
        map_type_errors(positions[i].ty, ctx, generics, module) + map_positions_errors(
            ctx,
            module,
            generics,
            positions,
            i + 1,
        )
    }
}

/// The problems of the generic applications in the items from `i` on.
pub open spec fn map_items_errors(
    ctx: ResolverContext,
    module: Module,
    i: int,
) -> Seq<DiagnosticView>
    decreases module.items@.len() - i,
{
    if i < 0 || i >= module.items@.len() {
        Seq::empty()
    } else {
        map_positions_errors(
            ctx,
            module,
            item_generics(module.items@[i], module, ctx),
            item_positions(module.items@[i]),
            0,
        ) + map_items_errors(ctx, module, i + 1)
    }
}

fn validate_map_item(
    item: &Item,
    ctx: &ResolverContext,
    module: &Module,
    diagnostics: &mut Vec<Diagnostic>,
)
    ensures
        diagnostics_view(final(diagnostics)@) == diagnostics_view(old(diagnostics)@)
            + map_positions_errors(
            *ctx,
            *module,
            item_generics(*item, *module, *ctx),
            item_positions(*item),
            0,
        ),
{
    let generics = collect_item_generics(item, module, ctx);
    let positions = collect_item_positions(item);
    let ghost names = texts_view(generics@);
    let ghost views = positions_view(positions@);
    let ghost start = diagnostics_view(diagnostics@);
    let mut i: usize = 0;
    while i < positions.len()
        invariant
            i <= positions.len(),
            views == positions_view(positions@),
            names == texts_view(generics@),
            diagnostics_view(diagnostics@) + map_positions_errors(
                *ctx,
                *module,
                names,
                views,
                i as int,
            ) == start + map_positions_errors(*ctx, *module, names, views, 0),
        decreases positions.len() - i,
    {
        let ghost before = diagnostics_view(diagnostics@);
        assert(views[i as int] == positions[i as int]@);
        validate_map_type_expr(positions[i].ty, ctx, &generics, module, diagnostics);
        assert(diagnostics_view(diagnostics@) + map_positions_errors(
            *ctx,
            *module,
            names,
            views,
            i + 1,
        ) =~= before + map_positions_errors(*ctx, *module, names, views, i as int));
        i += 1;
    }
    assert(diagnostics_view(diagnostics@) =~= start + map_positions_errors(
        *ctx,
        *module,
        names,
        views,
        0,
    ));
}

/// The problems that [`validate_map_usage`] finds in a module.
pub open spec fn usage_errors(module: Module, ctx: ResolverContext) -> Seq<DiagnosticView> {
    borrowed_items_errors(ctx, module.items@, 0) + scoped_items_errors(ctx, module.items@, 0)
        + map_items_errors(ctx, module, 0)
}

/// Validate the generic applications of a module, after the places of borrowed
/// callables and of scoped-thread tokens.
pub fn validate_map_usage(
    module: &Module,
    ctx: &ResolverContext,
    diagnostics: &mut Vec<Diagnostic>,
)
    ensures
        diagnostics_view(final(diagnostics)@) == diagnostics_view(old(diagnostics)@)
            + usage_errors(*module, *ctx),
{
    let ghost start = diagnostics_view(diagnostics@);
    validate_borrowed_callable_placements(module, ctx, diagnostics);
    validate_scoped_thread_placements(module, ctx, diagnostics);
    let ghost placed = diagnostics_view(diagnostics@);
    let mut i: usize = 0;
    while i < module.items.len()
        invariant
            i <= module.items.len(),
            diagnostics_view(diagnostics@) + map_items_errors(*ctx, *module, i as int) == placed
                + map_items_errors(*ctx, *module, 0),
        decreases module.items.len() - i,
    {
        let ghost before = diagnostics_view(diagnostics@);
        validate_map_item(&module.items[i], ctx, module, diagnostics);
        assert(diagnostics_view(diagnostics@) + map_items_errors(*ctx, *module, i + 1) =~= before
            + map_items_errors(*ctx, *module, i as int));
        i += 1;
    }
    assert(diagnostics_view(diagnostics@) =~= start + usage_errors(*module, *ctx));
}

/// Whether a named type is declared.
pub open spec fn known_name(ctx: ResolverContext, name: Seq<char>) -> bool {
    has_key(ctx.struct_types@, name) || has_key(ctx.enum_types@, name)
}

fn is_known_name(ctx: &ResolverContext, name: &str) -> (known: bool)
    ensures
        known == known_name(*ctx, name@),
{
    ctx.struct_types.contains_key(name) || ctx.enum_types.contains_key(name)
}

/// The name that a type mentions without declaring it.
pub open spec fn undefined_name(
    ctx: ResolverContext,
    generics: Seq<Seq<char>>,
    ty: TypeView,
) -> Option<Seq<char>> {
    match ty {
        TypeView::Named(name) => if !generics.contains(name) && !known_name(ctx, name) {
            Some(name)
        } else {
            None
        },
        _ => None,
    }
}

fn find_undefined_name<'t>(ctx: &ResolverContext, generics: &Vec<String>, ty: &'t Type) -> (name:
    Option<&'t str>)
    ensures
        optional_text(name) == undefined_name(*ctx, texts_view(generics@), ty@),
{
    match ty {
        Type::Named(name) => if !contains_text(generics, name.as_str()) && !is_known_name(
            ctx,
            name.as_str(),
        ) {
            Some(name.as_str())
        } else {
            None
        },
        _ => None,
    }
}

/// The undefined names in a struct's fields from position `i` on.
pub open spec fn undefined_field_errors(
    ctx: ResolverContext,
    structure: Seq<char>,
    generics: Seq<Seq<char>>,
    fields: Seq<(String, Type)>,
    span: Span,
    i: int,
) -> Seq<DiagnosticView>
    decreases fields.len() - i,
{
    if i < 0 || i >= fields.len() {
        Seq::empty()
    } else {
        let own = match undefined_name(ctx, generics, fields[i].1@) {
            Some(name) => seq![
                error_view(
                    "undefined type '"@ + name + "' used in field '"@ + fields[i].0@
                        + "' of struct '"@ + structure + "'"@,
                    Some(span),
                ),
            ],
            None => Seq::empty(),
        };
        own + undefined_field_errors(ctx, structure, generics, fields, span, i + 1)
    }
}

/// The undefined names in the structs from item `i` on.
pub open spec fn undefined_struct_errors(
    ctx: ResolverContext,
    items: Seq<Item>,
    i: int,
) -> Seq<DiagnosticView>
    decreases items.len() - i,
{
    if i < 0 || i >= items.len() {
        Seq::empty()
    } else {
        let own = match items[i] {
            Item::Struct(s) => match value_of(ctx.struct_types@, s.name.0@) {
                Some(definition) => undefined_field_errors(
                    ctx,
                    s.name.0@,
                    idents_view(s.generic_params@),
                    definition.fields@,
                    s.span,
                    0,
                ),
                None => Seq::empty(),
            },
            _ => Seq::empty(),
        };
        own + undefined_struct_errors(ctx, items, i + 1)
    }
}

/// The undefined names in an enum's payloads from position `i` on.
pub open spec fn undefined_variant_errors(
    ctx: ResolverContext,
    enumeration: Seq<char>,
    generics: Seq<Seq<char>>,
    variants: Seq<EnumVariant>,
    span: Span,
    i: int,
) -> Seq<DiagnosticView>
    decreases variants.len() - i,
{
    if i < 0 || i >= variants.len() {
        Seq::empty()
    } else {
        let undefined = match variants[i].payload {
            Some(payload) => undefined_name(ctx, generics, payload@),
            None => None,
        };
        let own = match undefined {
            Some(name) => seq![
                error_view(
                    "undefined type '"@ + name + "' used in variant '"@ + variants[i].name@
                        + "' of enum '"@ + enumeration + "'"@,
                    Some(span),
                ),
            ],
            None => Seq::empty(),
        };
        own + undefined_variant_errors(ctx, enumeration, generics, variants, span, i + 1)
    }
}

/// The undefined names in the enums from item `i` on.
pub open spec fn undefined_enum_errors(
    ctx: ResolverContext,
    items: Seq<Item>,
    i: int,
) -> Seq<DiagnosticView>
    decreases items.len() - i,
{
    if i < 0 || i >= items.len() {
        Seq::empty()
    } else {
        let own = match items[i] {
            Item::Enum(e) => match value_of(ctx.enum_types@, e.name.0@) {
                Some(definition) => undefined_variant_errors(
                    ctx,
                    e.name.0@,
                    idents_view(e.generic_params@),
                    definition.variants@,
                    e.span,
                    0,
                ),
                None => Seq::empty(),
            },
            _ => Seq::empty(),
        };
        own + undefined_enum_errors(ctx, items, i + 1)
    }
}

/// The undefined names in the constants from item `i` on.
pub open spec fn undefined_const_errors(
    ctx: ResolverContext,
    items: Seq<Item>,
    i: int,
) -> Seq<DiagnosticView>
    decreases items.len() - i,
{
    if i < 0 || i >= items.len() {
        Seq::empty()
    } else {
        let own = match items[i] {
            Item::Const(def) => match undefined_name(
                ctx,
                Seq::empty(),
                type_or_name(ctx, def.ty@),
            ) {
                Some(name) => seq![
                    error_view(
                        "undefined type '"@ + name + "' used in const '"@ + def.name.0@ + "'"@,
                        Some(def.span),
                    ),
                ],
                None => Seq::empty(),
            },
            _ => Seq::empty(),
        };
        own + undefined_const_errors(ctx, items, i + 1)
    }
}

fn validate_fields(
    ctx: &ResolverContext,
    structure: &str,
    generics: &Vec<String>,
    fields: &Vec<(String, Type)>,
    span: Span,
    diagnostics: &mut Vec<Diagnostic>,
)
    ensures
        diagnostics_view(final(diagnostics)@) == diagnostics_view(old(diagnostics)@)
            + undefined_field_errors(
            *ctx,
            structure@,
            texts_view(generics@),
            fields@,
            span,
            0,
        ),
{
    let ghost names = texts_view(generics@);
    let ghost start = diagnostics_view(diagnostics@);
    let mut i: usize = 0;
    while i < fields.len()
        invariant
            i <= fields.len(),
            names == texts_view(generics@),
            diagnostics_view(diagnostics@) + undefined_field_errors(
                *ctx,
                structure@,
                names,
                fields@,
                span,
                i as int,
            ) == start + undefined_field_errors(*ctx, structure@, names, fields@, span, 0),
        decreases fields.len() - i,
    {
        let ghost before = diagnostics_view(diagnostics@);
        match find_undefined_name(ctx, generics, &fields[i].1) {
            Some(name) => {
                let message = concat7(
                    "undefined type '",
                    name,
                    "' used in field '",
                    fields[i].0.as_str(),
                    "' of struct '",
                    structure,
                    "'",
                );
                report(diagnostics, message, Some(span));
            },
            None => {},
        }
        assert(diagnostics_view(diagnostics@) + undefined_field_errors(
            *ctx,
            structure@,
            names,
            fields@,
            span,
            i + 1,
        ) =~= before + undefined_field_errors(
            *ctx,
            structure@,
            names,
            fields@,
            span,
            i as int,
        ));
        i += 1;
    }
    assert(diagnostics_view(diagnostics@) =~= start + undefined_field_errors(
        *ctx,
        structure@,
        names,
        fields@,
        span,
        0,
    ));
}

fn validate_variants(
    ctx: &ResolverContext,
    enumeration: &str,
    generics: &Vec<String>,
    variants: &Vec<EnumVariant>,
    span: Span,
    diagnostics: &mut Vec<Diagnostic>,
)
    ensures
        diagnostics_view(final(diagnostics)@) == diagnostics_view(old(diagnostics)@)
            + undefined_variant_errors(
            *ctx,
            enumeration@,
            texts_view(generics@),
            variants@,
            span,
            0,
        ),
{
    let ghost names = texts_view(generics@);
    let ghost start = diagnostics_view(diagnostics@);
    let mut i: usize = 0;
    while i < variants.len()
        invariant
            i <= variants.len(),
            names == texts_view(generics@),
            diagnostics_view(diagnostics@) + undefined_variant_errors(
                *ctx,
                enumeration@,
                names,
                variants@,
                span,
                i as int,
            ) == start + undefined_variant_errors(
                *ctx,
                enumeration@,
                names,
                variants@,
                span,
                0,
            ),
        decreases variants.len() - i,
    {
        let ghost before = diagnostics_view(diagnostics@);
        let undefined = match &variants[i].payload {
            Some(payload) => find_undefined_name(ctx, generics, payload),
            None => None,
        };
        match undefined {
            Some(name) => {
                let message = concat7(
                    "undefined type '",
                    name,
                    "' used in variant '",
                    variants[i].name.as_str(),
                    "' of enum '",
                    enumeration,
                    "'",
                );
                report(diagnostics, message, Some(span));
            },
            None => {},
        }
        assert(diagnostics_view(diagnostics@) + undefined_variant_errors(
            *ctx,
            enumeration@,
            names,
            variants@,
            span,
            i + 1,
        ) =~= before + undefined_variant_errors(
            *ctx,
            enumeration@,
            names,
            variants@,
            span,
            i as int,
        ));
        i += 1;
    }
    assert(diagnostics_view(diagnostics@) =~= start + undefined_variant_errors(
        *ctx,
        enumeration@,
        names,
        variants@,
        span,
        0,
    ));
}

/// The problems that [`validate_named_types`] finds in a module.
pub open spec fn undefined_type_errors(module: Module, ctx: ResolverContext) -> Seq<DiagnosticView> {
    undefined_struct_errors(ctx, module.items@, 0) + undefined_enum_errors(ctx, module.items@, 0)
        + undefined_const_errors(ctx, module.items@, 0)
}

/// Validate that all Named types referenced in struct fields / enum payloads /
/// constants exist in the resolver context.
///
/// This must run after the types of imported modules are known, otherwise
/// references to them are flagged as undefined.
pub fn validate_named_types(
    module: &Module,
    ctx: &ResolverContext,
    diagnostics: &mut Vec<Diagnostic>,
)
    ensures
        diagnostics_view(final(diagnostics)@) == diagnostics_view(old(diagnostics)@)
            + undefined_type_errors(*module, *ctx),
{
    let ghost start = diagnostics_view(diagnostics@);
    let ghost items = module.items@;
    let mut i: usize = 0;
    while i < module.items.len()
        invariant
            i <= module.items.len(),
            items == module.items@,
            diagnostics_view(diagnostics@) + undefined_struct_errors(*ctx, items, i as int)
                == start + undefined_struct_errors(*ctx, items, 0),
        decreases module.items.len() - i,
    {
        let ghost before = diagnostics_view(diagnostics@);
        match &module.items[i] {
            Item::Struct(s) => match ctx.struct_types.get(s.name.0.as_str()) {
                Some(definition) => {
                    let generics = ident_names(&s.generic_params);
                    validate_fields(
                        ctx,
                        s.name.0.as_str(),
                        &generics,
                        &definition.fields,
                        s.span,
                        diagnostics,
                    );
                },
                None => {},
            },
            _ => {},
        }
        assert(diagnostics_view(diagnostics@) + undefined_struct_errors(*ctx, items, i + 1)
            =~= before + undefined_struct_errors(*ctx, items, i as int));
        i += 1;
    }
    let ghost after_structs = start + undefined_struct_errors(*ctx, items, 0);
    assert(diagnostics_view(diagnostics@) =~= after_structs);
    let mut k: usize = 0;
    while k < module.items.len()
        invariant
            k <= module.items.len(),
            items == module.items@,
            diagnostics_view(diagnostics@) + undefined_enum_errors(*ctx, items, k as int)
                == after_structs + undefined_enum_errors(*ctx, items, 0),
        decreases module.items.len() - k,
    {
        let ghost before = diagnostics_view(diagnostics@);
        match &module.items[k] {
            Item::Enum(e) => match ctx.enum_types.get(e.name.0.as_str()) {
                Some(definition) => {
                    let generics = ident_names(&e.generic_params);
                    validate_variants(
                        ctx,
                        e.name.0.as_str(),
                        &generics,
                        &definition.variants,
                        e.span,
                        diagnostics,
                    );
                },
                None => {},
            },
            _ => {},
        }
        assert(diagnostics_view(diagnostics@) + undefined_enum_errors(*ctx, items, k + 1)
            =~= before + undefined_enum_errors(*ctx, items, k as int));
        k += 1;
    }
    let ghost after_enums = after_structs + undefined_enum_errors(*ctx, items, 0);
    assert(diagnostics_view(diagnostics@) =~= after_enums);
    let none: Vec<String> = Vec::new();
    assert(texts_view(none@) =~= Seq::empty());
    let mut n: usize = 0;
    while n < module.items.len()
        invariant
            n <= module.items.len(),
            items == module.items@,
            texts_view(none@) == Seq::<Seq<char>>::empty(),
            diagnostics_view(diagnostics@) + undefined_const_errors(*ctx, items, n as int)
                == after_enums + undefined_const_errors(*ctx, items, 0),
        decreases module.items.len() - n,
    {
        let ghost before = diagnostics_view(diagnostics@);
        match &module.items[n] {
            Item::Const(def) => {
                let ty = resolved_or_named(ctx, &def.ty);
                match find_undefined_name(ctx, &none, &ty) {
                    Some(name) => {
                        let message = concat5(
                            "undefined type '",
                            name,
                            "' used in const '",
                            def.name.0.as_str(),
                            "'",
                        );
                        report(diagnostics, message, Some(def.span));
                    },
                    None => {},
                }
            },
            _ => {},
        }
        assert(diagnostics_view(diagnostics@) + undefined_const_errors(*ctx, items, n + 1)
            =~= before + undefined_const_errors(*ctx, items, n as int));
        n += 1;
    }
    assert(diagnostics_view(diagnostics@) =~= start + undefined_type_errors(*module, *ctx));
}

} // verus!
