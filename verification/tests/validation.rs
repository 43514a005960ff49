//! Where types may stand, what may be a map key, and which names are declared.

use glyph::ast::{
    Block, ConstDef, EnumDef, Expr, FieldDef, Function, Ident, Item, Literal, Module, Param,
    StructDef, TypeExpr,
};
use glyph::diag::{Diagnostic, Span};
use glyph::resolver::{ResolvedSymbol, ResolverContext};
use glyph::table::NameMap;
use glyph::types::{BorrowedCallableKind, EnumType, EnumVariant, StructType, Type};
use glyph::validation::{validate_map_usage, validate_named_types};

const AT: Span = Span { start: 3, end: 4 };

fn id(name: &str) -> Ident {
    Ident(name.to_string())
}

fn path(segments: &[&str]) -> TypeExpr {
    TypeExpr::Path { segments: segments.iter().map(|s| s.to_string()).collect(), span: AT }
}

fn apply(base: &str, args: Vec<TypeExpr>) -> TypeExpr {
    TypeExpr::App { base: Box::new(path(&[base])), args, span: AT }
}

fn structure(name: &str, fields: Vec<(&str, TypeExpr)>) -> StructDef {
    StructDef {
        name: id(name),
        generic_params: Vec::new(),
        interfaces: Vec::new(),
        fields: fields
            .into_iter()
            .map(|(field, ty)| FieldDef { name: id(field), ty, span: AT })
            .collect(),
        methods: Vec::new(),
        inline_impls: Vec::new(),
        span: AT,
    }
}

fn function(name: &str, params: Vec<(&str, TypeExpr)>, ret_type: Option<TypeExpr>) -> Function {
    Function {
        name: id(name),
        params: params
            .into_iter()
            .map(|(param, ty)| Param { name: id(param), ty: Some(ty), span: AT })
            .collect(),
        ret_type,
        body: Block { stmts: Vec::new(), span: AT },
        span: AT,
    }
}

fn denote(ctx: &mut ResolverContext, ty: &TypeExpr, resolved: Type) {
    ctx.resolved_types.push((ty.clone(), resolved));
}

fn import(ctx: &mut ResolverContext, name: &str, module: &str) {
    let symbol = ResolvedSymbol::Struct(module.to_string(), name.to_string());
    ctx.symbols.insert(name.to_string(), symbol);
}

fn usage(items: Vec<Item>, ctx: &ResolverContext) -> Vec<String> {
    let mut diagnostics: Vec<Diagnostic> = Vec::new();
    validate_map_usage(&Module { items }, ctx, &mut diagnostics);
    diagnostics.into_iter().map(|diagnostic| diagnostic.message).collect()
}

fn names(items: Vec<Item>, ctx: &ResolverContext) -> Vec<String> {
    let mut diagnostics: Vec<Diagnostic> = Vec::new();
    validate_named_types(&Module { items }, ctx, &mut diagnostics);
    diagnostics.into_iter().map(|diagnostic| diagnostic.message).collect()
}

fn scope_type() -> Type {
    Type::Named("std::thread::Scope".to_string())
}

fn handle_type(result: Type) -> Type {
    Type::App { base: "std::thread::ScopedJoinHandle".to_string(), args: vec![result] }
}

#[test]
fn canonical_scoped_values_are_rejected_in_escaping_type_placements() {
    let mut ctx = ResolverContext::default();
    import(&mut ctx, "Scope", "std/thread");
    denote(&mut ctx, &path(&["Scope"]), scope_type());
    let holder = structure("Holder", vec![("scope", path(&["Scope"]))]);
    let field = usage(vec![Item::Struct(holder)], &ctx);
    assert!(
        field
            .iter()
            .any(|message| message.contains("scoped-thread token")
                && message.contains("struct field")),
        "{field:?}"
    );

    let mut ctx = ResolverContext::default();
    import(&mut ctx, "ScopedJoinHandle", "std/thread");
    let handle = apply("ScopedJoinHandle", vec![path(&["i32"])]);
    denote(&mut ctx, &handle, handle_type(Type::I32));
    let invalid = function("invalid", vec![("handle", handle.clone())], Some(handle));
    let returned = usage(vec![Item::Function(invalid)], &ctx);
    assert!(
        returned
            .iter()
            .any(|message| message.contains("scoped-thread token") && message.contains("return")),
        "{returned:?}"
    );
    assert_eq!(returned.len(), 1, "the parameter is in its place: {returned:?}");
}

#[test]
fn same_named_user_types_do_not_gain_canonical_scope_restrictions() {
    let mut ctx = ResolverContext::default();
    import(&mut ctx, "Scope", "main");
    denote(&mut ctx, &path(&["Scope"]), Type::Named("Scope".to_string()));
    let items = vec![
        Item::Struct(structure("Scope", vec![])),
        Item::Struct(structure("Holder", vec![("scope", path(&["Scope"]))])),
        Item::Function(function(
            "identity",
            vec![("scope", path(&["Scope"]))],
            Some(path(&["Scope"])),
        )),
    ];
    let messages = usage(items, &ctx);
    assert!(messages.is_empty(), "{messages:?}");
}

#[test]
fn canonical_scoped_names_cannot_be_forged_without_std_identity() {
    let mut ctx = ResolverContext::default();
    let forged = path(&["std", "thread", "Scope"]);
    denote(&mut ctx, &forged, scope_type());
    let messages = usage(
        vec![Item::Function(function("forged", vec![("scope", forged)], None))],
        &ctx,
    );
    assert!(
        messages
            .iter()
            .any(|message| message.contains("compiler-owned identities")
                && message.contains("std/thread")),
        "{messages:?}"
    );
}

#[test]
fn borrowed_callables_stand_only_in_direct_places() {
    let mut ctx = ResolverContext::default();
    let callback = apply("Fn", vec![path(&["i32"]), path(&["i32"])]);
    let denoted = Type::BorrowedFunction {
        kind: BorrowedCallableKind::Fn,
        params: vec![Type::I32],
        ret: Box::new(Type::I32),
    };
    denote(&mut ctx, &callback, denoted.clone());
    let wrapped = TypeExpr::Tuple { elements: vec![callback.clone()], span: AT };
    denote(&mut ctx, &wrapped, Type::Tuple(vec![denoted]));

    let direct = function("apply", vec![("f", callback.clone())], None);
    assert_eq!(usage(vec![Item::Function(direct)], &ctx), Vec::<String>::new());
    let returned = function("make", vec![], Some(callback));
    assert_eq!(
        usage(vec![Item::Function(returned)], &ctx),
        vec![
            "a borrowed callable is noescape and cannot appear in a function return type; use a \
             direct Fn/FnMut parameter or local binding"
        ]
    );
    let nested = function("apply", vec![("f", wrapped)], None);
    assert_eq!(usage(vec![Item::Function(nested)], &ctx).len(), 1);
}

#[test]
fn map_keys_must_be_hashable() {
    let ctx = ResolverContext::default();
    let short = structure("Short", vec![("map", apply("Map", vec![path(&["i32"])]))]);
    assert_eq!(
        usage(vec![Item::Struct(short)], &ctx),
        vec!["Map expects 2 type arguments but got 1"]
    );

    let mut ctx = ResolverContext::default();
    denote(&mut ctx, &path(&["i32"]), Type::I32);
    let keyed = |key: &str| {
        Item::Struct(structure(
            "Table",
            vec![("map", apply("Map", vec![path(&[key]), path(&["i32"])]))],
        ))
    };
    assert_eq!(usage(vec![keyed("i32")], &ctx), Vec::<String>::new());
    assert_eq!(
        usage(vec![keyed("Point")], &ctx),
        vec!["Map key type 'Point' must implement Hash"]
    );

    let mut point = structure("Point", vec![]);
    point.interfaces.push(id("Hash"));
    assert_eq!(usage(vec![keyed("Point"), Item::Struct(point)], &ctx), Vec::<String>::new());

    let mut methods = NameMap::new();
    methods.insert("Hash".to_string(), NameMap::new());
    ctx.interface_impls.insert("Point".to_string(), methods);
    assert_eq!(usage(vec![keyed("Point")], &ctx), Vec::<String>::new());

    let callable = structure("Holder", vec![("f", apply("FnOnce", vec![path(&["i32"])]))]);
    assert_eq!(
        usage(vec![Item::Struct(callable)], &ctx),
        vec!["FnOnce expects 2 type arguments but got 1"]
    );
}

#[test]
fn undefined_types_are_reported_with_their_place() {
    let mut ctx = ResolverContext::default();
    ctx.struct_types.insert(
        "Node".to_string(),
        StructType {
            name: "Node".to_string(),
            fields: vec![
                ("next".to_string(), Type::Named("Node".to_string())),
                ("item".to_string(), Type::Named("T".to_string())),
                ("lost".to_string(), Type::Named("Missing".to_string())),
            ],
        },
    );
    ctx.enum_types.insert(
        "Shape".to_string(),
        EnumType {
            name: "Shape".to_string(),
            variants: vec![
                EnumVariant { name: "Empty".to_string(), payload: None },
                EnumVariant {
                    name: "Filled".to_string(),
                    payload: Some(Type::Named("Paint".to_string())),
                },
            ],
        },
    );
    let mut node = structure("Node", vec![]);
    node.generic_params.push(id("T"));
    let shape =
        EnumDef { name: id("Shape"), generic_params: vec![], variants: vec![], span: AT };
    let limit = ConstDef {
        name: id("LIMIT"),
        ty: path(&["Bound"]),
        value: Expr::Lit(Literal::Int(1), AT),
        span: AT,
    };
    let items = vec![Item::Struct(node), Item::Enum(shape), Item::Const(limit)];
    assert_eq!(
        names(items, &ctx),
        vec![
            "undefined type 'Missing' used in field 'lost' of struct 'Node'",
            "undefined type 'Paint' used in variant 'Filled' of enum 'Shape'",
            "undefined type 'Bound' used in const 'LIMIT'",
        ]
    );
}
