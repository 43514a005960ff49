//! Which bindings closures capture, how, and where closures escape to.

use glyph::ast::{
    BinaryOp, Block, CaptureMode, Expr, Function, Ident, Literal, MatchArm, MatchPattern, Param,
    Stmt, TypeExpr,
};
use glyph::closure_analysis::{
    analyze_function_closure_ownership, analyze_function_closures, CaptureOwnership, ClosureAnalysis, ClosureEscapeKind,
    ClosureInfo,
};
use glyph::diag::Span;
use glyph::resolver::ResolverContext;
use glyph::types::{
    BorrowedCallableKind, EnumType, EnumVariant, Mutability, StructType, Type,
};

/// Builds functions whose parts all stand at different places.
struct Source {
    at: u32,
    resolver: ResolverContext,
}

impl Source {
    fn new() -> Source {
        Source { at: 0, resolver: ResolverContext::default() }
    }

    fn span(&mut self) -> Span {
        self.at += 10;
        Span::new(self.at, self.at + 5)
    }

    fn ty(&mut self, name: &str, resolved: Type) -> TypeExpr {
        let span = self.span();
        let ty = TypeExpr::Path { segments: vec![name.to_string()], span };
        self.resolver.resolved_types.push((ty.clone(), resolved));
        ty
    }

    fn ref_ty(&mut self, name: &str, resolved: Type) -> TypeExpr {
        let inner = self.ty(name, resolved.clone());
        let span = self.span();
        let ty = TypeExpr::Ref { inner: Box::new(inner), mutability: Mutability::Immutable, span };
        let target = Type::Ref(Box::new(resolved), Mutability::Immutable);
        self.resolver.resolved_types.push((ty.clone(), target));
        ty
    }

    fn var(&mut self, name: &str) -> Expr {
        Expr::Ident(id(name), self.span())
    }

    fn number(&mut self, value: i64) -> Expr {
        Expr::Lit(Literal::Int(value), self.span())
    }

    fn text(&mut self, value: &str) -> Expr {
        Expr::Lit(Literal::Str(value.to_string()), self.span())
    }

    fn plus(&mut self, lhs: Expr, rhs: Expr) -> Expr {
        let span = self.span();
        Expr::Binary { op: BinaryOp::Add, lhs: Box::new(lhs), rhs: Box::new(rhs), span }
    }

    fn call(&mut self, name: &str, args: Vec<Expr>) -> Expr {
        let callee = Box::new(self.var(name));
        let span = self.span();
        Expr::Call { callee, args, span }
    }

    fn block(&mut self, stmts: Vec<Stmt>) -> Block {
        let span = self.span();
        Block { stmts, span }
    }

    fn closure(&mut self, params: &[&str], body: Expr) -> Expr {
        let mut list = Vec::new();
        for name in params {
            let span = self.span();
            list.push(Param { name: id(name), ty: None, span });
        }
        let span = self.span();
        Expr::Closure { capture: CaptureMode::Infer, params: list, body: Box::new(body), span }
    }

    fn bind(&mut self, name: &str, ty: Option<TypeExpr>, value: Option<Expr>) -> Stmt {
        let span = self.span();
        Stmt::Let { mutable: false, name: id(name), ty, value, span }
    }

    fn expr(&mut self, value: Expr) -> Stmt {
        let span = self.span();
        Stmt::Expr(value, span)
    }

    fn ret(&mut self, value: Expr) -> Stmt {
        let span = self.span();
        Stmt::Ret(Some(value), span)
    }

    /// `let borrowed: str = "hi"; let f = () -> borrowed`
    fn borrowing(&mut self) -> Vec<Stmt> {
        let ty = self.ty("str", Type::Str);
        let hi = self.text("hi");
        let borrowed = self.bind("borrowed", Some(ty), Some(hi));
        let body = self.var("borrowed");
        let closure = self.closure(&[], body);
        let f = self.bind("f", None, Some(closure));
        vec![borrowed, f]
    }

    fn structure(&mut self, name: &str, fields: Vec<(&str, Type)>) {
        let fields = fields.into_iter().map(|(field, ty)| (field.to_string(), ty)).collect();
        let definition = StructType { name: name.to_string(), fields };
        self.resolver.struct_types.insert(name.to_string(), definition);
    }

    fn enumeration(&mut self, name: &str, variants: Vec<(&str, Option<Type>)>) {
        let variants = variants
            .into_iter()
            .map(|(variant, payload)| EnumVariant { name: variant.to_string(), payload })
            .collect();
        let definition = EnumType { name: name.to_string(), variants };
        self.resolver.enum_types.insert(name.to_string(), definition);
    }

    /// `let value: T; let f = () -> value; return f`
    fn returning(&mut self, ty: Type) -> ClosureAnalysis {
        let ty = self.ty("T", ty);
        let value = self.bind("value", Some(ty), None);
        let body = self.var("value");
        let closure = self.closure(&[], body);
        let f = self.bind("f", None, Some(closure));
        let used = self.var("f");
        let ret = self.ret(used);
        self.analyze(vec![value, f, ret])
    }

    fn analyze(&mut self, stmts: Vec<Stmt>) -> ClosureAnalysis {
        let body = self.block(stmts);
        let span = self.span();
        let function =
            Function { name: id("main"), params: Vec::new(), ret_type: None, body, span };
        analyze_function_closure_ownership(&function, &self.resolver)
    }
}

fn id(name: &str) -> Ident {
    Ident(name.to_string())
}

fn capture_names(closure: &ClosureInfo) -> Vec<&str> {
    closure.captures.iter().map(|capture| capture.name.as_str()).collect()
}

fn says(analysis: &ClosureAnalysis, text: &str) -> bool {
    analysis.diagnostics.iter().any(|diagnostic| diagnostic.message.contains(text))
}

#[test]
fn captures_are_deduplicated_in_declaration_order_with_inferred_types() {
    let mut s = Source::new();
    let one = s.number(1);
    let first = s.bind("first", None, Some(one));
    let ty = s.ty("i32", Type::I32);
    let two = s.number(2);
    let second = s.bind("second", Some(ty), Some(two));
    let a = s.var("second");
    let b = s.var("first");
    let ab = s.plus(a, b);
    let c = s.var("second");
    let abc = s.plus(ab, c);
    let x = s.var("x");
    let body = s.plus(abc, x);
    let closure = s.closure(&["x"], body);
    let f = s.bind("f", None, Some(closure));
    let analysis = s.analyze(vec![first, second, f]);

    let captures = &analysis.closures[0].captures;
    assert_eq!(capture_names(&analysis.closures[0]), ["first", "second"]);
    assert_eq!(captures[0].resolved_type, Some(Type::I32));
    assert!(matches!(captures[1].declared_type, Some(TypeExpr::Path { .. })));
    assert!(captures.iter().all(|capture| capture.ownership == CaptureOwnership::Copy));
}

#[test]
fn parameters_and_inner_bindings_shadow_outer_locals() {
    let mut s = Source::new();
    let one = s.number(1);
    let value = s.bind("value", None, Some(one));
    let outer = s.var("value");
    let inner = s.bind("inner", None, Some(outer));
    let three = s.number(3);
    let shadow = s.bind("value", None, Some(three));
    let a = s.var("inner");
    let b = s.var("value");
    let sum = s.plus(a, b);
    let last = s.expr(sum);
    let block = s.block(vec![inner, shadow, last]);
    let closure = s.closure(&["value"], Expr::Block(block));
    let f = s.bind("f", None, Some(closure));
    let analysis = s.analyze(vec![value, f]);

    assert!(analysis.closures[0].captures.is_empty());
}

#[test]
fn initializer_can_capture_the_binding_shadowed_by_its_let() {
    let mut s = Source::new();
    let one = s.number(1);
    let value = s.bind("value", None, Some(one));
    let outer = s.var("value");
    let step = s.number(1);
    let sum = s.plus(outer, step);
    let shadow = s.bind("value", None, Some(sum));
    let used = s.var("value");
    let last = s.expr(used);
    let block = s.block(vec![shadow, last]);
    let closure = s.closure(&[], Expr::Block(block));
    let f = s.bind("f", None, Some(closure));
    let analysis = s.analyze(vec![value, f]);

    assert_eq!(analysis.closures[0].captures[0].name, "value");
}

#[test]
fn nested_closure_captures_propagate_to_the_parent_environment() {
    let mut s = Source::new();
    let one = s.number(1);
    let outside = s.bind("outside", None, Some(one));
    let a = s.var("outside");
    let p = s.var("p");
    let ap = s.plus(a, p);
    let q = s.var("q");
    let body = s.plus(ap, q);
    let nested = s.closure(&["q"], body);
    let inner = s.bind("inner", None, Some(nested));
    let used = s.var("inner");
    let last = s.expr(used);
    let block = s.block(vec![inner, last]);
    let closure = s.closure(&["p"], Expr::Block(block));
    let outer = s.bind("outer", None, Some(closure));
    let analysis = s.analyze(vec![outside, outer]);

    assert_eq!(analysis.closures.len(), 2);
    assert_eq!(capture_names(&analysis.closures[0]), ["outside"]);
    assert_eq!(capture_names(&analysis.closures[1]), ["outside", "p"]);
}

#[test]
fn owned_capture_moves_source_but_copy_capture_does_not() {
    let mut s = Source::new();
    let one = s.number(1);
    let count = s.bind("count", None, Some(one));
    let ty = s.ty("String", Type::String);
    let owned = s.bind("owned", Some(ty), None);
    let copied = s.var("count");
    let span = s.span();
    let moving = Expr::Closure {
        capture: CaptureMode::Move,
        params: Vec::new(),
        body: Box::new(copied),
        span,
    };
    let f = s.bind("f", None, Some(moving));
    let taken = s.var("owned");
    let taking = s.closure(&[], taken);
    let g = s.bind("g", None, Some(taking));
    let again = s.var("count");
    let available = s.bind("still_available", None, Some(again));
    let gone = s.var("owned");
    let moved = s.bind("moved", None, Some(gone));
    let analysis = s.analyze(vec![count, owned, f, g, available, moved]);

    assert_eq!(analysis.closures[0].captures[0].ownership, CaptureOwnership::Copy);
    assert!(analysis.closures[0].captures[0].explicit_move);
    assert_eq!(analysis.closures[1].captures[0].ownership, CaptureOwnership::Move);
    assert!(says(&analysis, "use of moved value `owned`"));
    assert!(!says(&analysis, "use of moved value `count`"));
}

#[test]
fn borrowed_capture_is_rejected_only_when_closure_escapes() {
    let mut s = Source::new();
    let mut stmts = s.borrowing();
    let called = s.call("f", Vec::new());
    stmts.push(s.bind("value", None, Some(called)));
    let local = s.analyze(stmts);
    assert!(local.diagnostics.is_empty(), "{:?}", local.diagnostics);

    let mut s = Source::new();
    let mut stmts = s.borrowing();
    let f = s.var("f");
    stmts.push(s.ret(f));
    let escaped = s.analyze(stmts);
    assert!(escaped.closures[0]
        .escapes
        .iter()
        .any(|escape| escape.kind == ClosureEscapeKind::Return));
    assert!(says(&escaped, "borrowed capture `borrowed` cannot escape through return"));
}

#[test]
fn escape_analysis_tracks_storage_container_and_transfer_sites() {
    let mut s = Source::new();
    let mut stmts = s.borrowing();
    let f = s.var("f");
    let span = s.span();
    stmts.push(s.bind("stored", None, Some(Expr::Tuple { elements: vec![f], span })));
    let stored = s.analyze(stmts);

    let mut s = Source::new();
    let mut stmts = s.borrowing();
    stmts.push(s.bind("callbacks", None, None));
    let receiver = Box::new(s.var("callbacks"));
    let f = s.var("f");
    let span = s.span();
    let push = Expr::MethodCall { receiver, method: id("push"), args: vec![f], span };
    stmts.push(s.expr(push));
    let inserted = s.analyze(stmts);

    let mut s = Source::new();
    let mut stmts = s.borrowing();
    let f = s.var("f");
    let consume = s.call("consume", vec![f]);
    stmts.push(s.expr(consume));
    let transferred = s.analyze(stmts);

    let cases = vec![
        (stored, ClosureEscapeKind::Storage, "storage"),
        (inserted, ClosureEscapeKind::ContainerInsertion, "container insertion"),
        (transferred, ClosureEscapeKind::Transfer, "transfer site"),
    ];
    for (analysis, kind, message) in cases {
        assert!(analysis.closures[0].escapes.iter().any(|escape| escape.kind == kind));
        assert!(says(&analysis, message), "{:?}", analysis.diagnostics);
    }
}

#[test]
fn return_escape_propagates_through_if_and_match_values() {
    let mut s = Source::new();
    let mut stmts = s.borrowing();
    let span = s.span();
    let cond = Box::new(Expr::Lit(Literal::Bool(true), span));
    let f = s.var("f");
    let f = s.expr(f);
    let then_block = s.block(vec![f]);
    let f = s.var("f");
    let f = s.expr(f);
    let else_block = Some(s.block(vec![f]));
    let span = s.span();
    stmts.push(s.ret(Expr::If { cond, then_block, else_block, span }));
    let through_if = s.analyze(stmts);

    let mut s = Source::new();
    let mut stmts = s.borrowing();
    let scrutinee = Box::new(s.var("choice"));
    let some = s.var("f");
    let some_span = s.span();
    let none = s.var("f");
    let none_span = s.span();
    let arms = vec![
        MatchArm {
            pattern: MatchPattern::Variant { name: id("Some"), binding: None },
            expr: some,
            span: some_span,
        },
        MatchArm {
            pattern: MatchPattern::Variant { name: id("None"), binding: None },
            expr: none,
            span: none_span,
        },
    ];
    let span = s.span();
    stmts.push(s.ret(Expr::Match { scrutinee, arms, span }));
    let through_match = s.analyze(stmts);

    for analysis in [through_if, through_match] {
        assert!(says(&analysis, "borrowed capture `borrowed` cannot escape through return"));
    }
}

#[test]
fn borrowed_provenance_is_structural_and_names_the_exact_capture() {
    let mut s = Source::new();
    s.resolver.struct_types.insert(
        "View".to_string(),
        StructType { name: "View".to_string(), fields: vec![("text".to_string(), Type::Str)] },
    );
    let ty = s.ty("View", Type::Named("View".to_string()));
    let view = s.bind("view", Some(ty), None);
    let body = s.var("view");
    let closure = s.closure(&[], body);
    let f = s.bind("f", None, Some(closure));
    let used = s.var("f");
    let ret = s.ret(used);
    let analysis = s.analyze(vec![view, f, ret]);

    assert!(analysis.closures[0].captures[0].transitively_borrowed);
    assert!(says(&analysis, "borrowed capture `view` cannot escape"));
}

#[test]
fn method_self_and_field_access_resolve_to_the_self_binding() {
    let mut s = Source::new();
    s.resolver.struct_types.insert(
        "Accumulator".to_string(),
        StructType {
            name: "Accumulator".to_string(),
            fields: vec![("total".to_string(), Type::I32)],
        },
    );
    let ty = s.ref_ty("Accumulator", Type::Named("Accumulator".to_string()));
    let span = s.span();
    let params = vec![Param { name: id("self"), ty: Some(ty), span }];
    let base = Box::new(s.var("self"));
    let span = s.span();
    let field = Expr::FieldAccess { base, field: id("total"), span };
    let closure = s.closure(&[], field);
    let ret = s.ret(closure);
    let body = s.block(vec![ret]);
    let span = s.span();
    let method = Function { name: id("callback"), params, ret_type: None, body, span };
    let analysis = analyze_function_closure_ownership(&method, &s.resolver);

    let capture = &analysis.closures[0].captures[0];
    assert_eq!(capture.name, "self");
    assert_eq!(capture.ownership, CaptureOwnership::Copy);
    assert!(capture.transitively_borrowed);
    assert!(says(&analysis, "borrowed capture `self` cannot escape through return"));
}

#[test]
fn direct_and_assigned_recursive_closures_are_rejected() {
    let mut s = Source::new();
    let body = s.call("f", Vec::new());
    let closure = s.closure(&[], body);
    let f = s.bind("f", None, Some(closure));
    let direct = s.analyze(vec![f]);

    let mut s = Source::new();
    let callable = Type::Function { params: Vec::new(), ret: Box::new(Type::I32) };
    let ty = s.ty("FnOnce", callable);
    let span = s.span();
    let f = Stmt::Let { mutable: true, name: id("f"), ty: Some(ty), value: None, span };
    let target = s.var("f");
    let body = s.call("f", Vec::new());
    let value = s.closure(&[], body);
    let span = s.span();
    let assigned = s.analyze(vec![f, Stmt::Assign { target, value, span }]);

    for analysis in [direct, assigned] {
        assert!(says(&analysis, "recursive closure cycle through `f`"));
    }
}

#[test]
fn second_fnonce_call_is_rejected() {
    let mut s = Source::new();
    let one = s.number(1);
    let value = s.bind("value", None, Some(one));
    let body = s.var("value");
    let closure = s.closure(&[], body);
    let f = s.bind("f", None, Some(closure));
    let first = s.call("f", Vec::new());
    let one = s.bind("one", None, Some(first));
    let second = s.call("f", Vec::new());
    let two = s.bind("two", None, Some(second));
    let analysis = s.analyze(vec![value, f, one, two]);

    assert!(says(&analysis, "closure values can be called once"));
}

#[test]
fn loop_and_match_bindings_are_local_to_the_closure() {
    let mut s = Source::new();
    let elements = vec![s.number(1), s.number(2)];
    let span = s.span();
    let values = s.bind("values", None, Some(Expr::ArrayLit { elements, span }));
    let used = s.var("value");
    let copy = s.bind("copy", None, Some(used));
    let body = s.block(vec![copy]);
    let iter = Box::new(s.var("values"));
    let span = s.span();
    let walk = s.expr(Expr::ForIn { var: id("value"), iter, body, span });
    let scrutinee = Box::new(s.var("item"));
    let payload = s.var("payload");
    let some_span = s.span();
    let zero = s.number(0);
    let none_span = s.span();
    let arms = vec![
        MatchArm {
            pattern: MatchPattern::Variant { name: id("Some"), binding: Some(id("payload")) },
            expr: payload,
            span: some_span,
        },
        MatchArm {
            pattern: MatchPattern::Variant { name: id("None"), binding: None },
            expr: zero,
            span: none_span,
        },
    ];
    let span = s.span();
    let choice = s.expr(Expr::Match { scrutinee, arms, span });
    let block = s.block(vec![walk, choice]);
    let closure = s.closure(&[], Expr::Block(block));
    let f = s.bind("f", None, Some(closure));
    let analysis = s.analyze(vec![values, f]);

    assert_eq!(capture_names(&analysis.closures[0]), ["values"]);
}

#[test]
fn spawn_rejects_borrowed_capture_at_the_transfer_site() {
    let mut s = Source::new();
    let ty = s.ty("i32", Type::I32);
    let seven = s.number(7);
    let value = s.bind("value", Some(ty), Some(seven));
    let ty = s.ref_ty("i32", Type::I32);
    let target = s.var("value");
    let span = s.span();
    let address =
        Expr::Ref { expr: Box::new(target), mutability: Mutability::Immutable, span };
    let borrowed = s.bind("borrowed", Some(ty), Some(address));
    let used = s.var("borrowed");
    let observed = s.bind("observed", None, Some(used));
    let block = s.block(vec![observed]);
    let closure = s.closure(&[], Expr::Block(block));
    let task = s.bind("task", None, Some(closure));
    let argument = s.var("task");
    let spawned = s.call("spawn", vec![argument]);
    let outcome = s.bind("outcome", None, Some(spawned));
    let analysis = s.analyze(vec![value, borrowed, task, outcome]);

    assert!(
        says(&analysis, "borrowed capture `borrowed` cannot escape through a transfer site"),
        "{:?}",
        analysis.diagnostics
    );
}

#[test]
fn lexical_analysis_needs_no_resolver() {
    let mut s = Source::new();
    let one = s.number(1);
    let value = s.bind("value", None, Some(one));
    let used = s.var("value");
    let closure = s.closure(&[], used);
    let f = s.bind("f", None, Some(closure));
    let body = s.block(vec![value, f]);
    let span = s.span();
    let function = Function { name: id("main"), params: Vec::new(), ret_type: None, body, span };
    let closures = analyze_function_closures(&function);
    assert_eq!(closures.len(), 1);
    assert_eq!(closures[0].closure_id, 0);
    assert!(closures[0].is_fn_once);
    assert_eq!(capture_names(&closures[0]), ["value"]);
}

fn named(name: &str) -> Type {
    Type::Named(name.to_string())
}

fn enumerated(name: &str) -> Type {
    Type::Enum(name.to_string())
}

fn applied(base: &str, args: Vec<Type>) -> Type {
    Type::App { base: base.to_string(), args }
}

fn declare_borrowing_types(s: &mut Source) {
    s.structure("View", vec![("id", Type::I32), ("text", Type::Str)]);
    s.structure("Owner", vec![("id", Type::I32), ("text", Type::String)]);
    s.enumeration("Token", vec![("End", None), ("Word", Some(Type::Str))]);
    s.enumeration("Level", vec![("Low", None), ("High", Some(Type::I64))]);
    s.enumeration("Wrapped", vec![("Empty", None), ("Full", Some(named("View")))]);
    s.structure("Holder", vec![("token", enumerated("Token"))]);
    let next = Type::Own(Box::new(enumerated("List")));
    s.enumeration("List", vec![("Nil", None), ("Cons", Some(Type::Tuple(vec![Type::Str, next])))]);
    let next = Type::Own(Box::new(enumerated("Chain")));
    let link = Type::Tuple(vec![Type::I32, next]);
    s.enumeration("Chain", vec![("Nil", None), ("Cons", Some(link))]);
    let child = Type::Own(Box::new(enumerated("Branch")));
    s.structure("Tree", vec![("child", child), ("label", Type::String)]);
    s.enumeration("Branch", vec![("Leaf", Some(Type::Str)), ("Node", Some(named("Tree")))]);
}

#[test]
fn borrowed_data_is_found_wherever_a_type_holds_it() {
    let callback = Type::BorrowedFunction {
        kind: BorrowedCallableKind::Fn,
        params: vec![],
        ret: Box::new(Type::Void),
    };
    for ty in [
        Type::Str,
        Type::Ref(Box::new(Type::I32), Mutability::Immutable),
        Type::Ref(Box::new(Type::I32), Mutability::Mutable),
        callback.clone(),
        Type::Array(Box::new(Type::Str), 2),
        Type::Own(Box::new(Type::Str)),
        Type::RawPtr(Box::new(Type::Str)),
        Type::Shared(Box::new(Type::Str)),
        Type::Tuple(vec![Type::I32, callback]),
        Type::Function { params: vec![Type::Str], ret: Box::new(Type::Void) },
        Type::Function { params: vec![], ret: Box::new(Type::Str) },
        applied("Vec", vec![Type::I32, Type::Str]),
        named("View"),
        named("Holder"),
        named("Tree"),
        named("Token"),
        enumerated("Token"),
        enumerated("Wrapped"),
        enumerated("List"),
        enumerated("Branch"),
        applied("View", vec![Type::I32]),
        applied("Token", vec![]),
        applied("Vec", vec![enumerated("Wrapped")]),
    ] {
        let mut s = Source::new();
        declare_borrowing_types(&mut s);
        let analysis = s.returning(ty.clone());
        assert!(analysis.closures[0].captures[0].transitively_borrowed, "{ty:?}");
        assert!(
            says(&analysis, "borrowed capture `value` cannot escape through return"),
            "{ty:?}"
        );
    }
}

#[test]
fn owned_data_escapes_freely() {
    for ty in [
        Type::I32,
        Type::String,
        Type::Own(Box::new(Type::I32)),
        Type::Tuple(vec![Type::I32, Type::String]),
        Type::Function { params: vec![Type::I32], ret: Box::new(Type::Void) },
        applied("Vec", vec![Type::I32]),
        applied("Owner", vec![Type::I32]),
        named("Owner"),
        named("Level"),
        named("Undeclared"),
        enumerated("Level"),
        enumerated("Chain"),
        enumerated("Undeclared"),
    ] {
        let mut s = Source::new();
        declare_borrowing_types(&mut s);
        let analysis = s.returning(ty.clone());
        assert!(!analysis.closures[0].captures[0].transitively_borrowed, "{ty:?}");
        assert!(analysis.diagnostics.is_empty(), "{ty:?}: {:?}", analysis.diagnostics);
    }
}

#[test]
fn an_escape_is_recorded_once() {
    let mut s = Source::new();
    let mut stmts = s.borrowing();
    let first = s.var("f");
    let second = s.var("f");
    let span = s.span();
    let both = Expr::Tuple { elements: vec![first, second], span };
    stmts.push(s.bind("stored", None, Some(both)));
    let used = s.var("f");
    stmts.push(s.ret(used));
    let analysis = s.analyze(stmts);
    let kinds: Vec<ClosureEscapeKind> =
        analysis.closures[0].escapes.iter().map(|escape| escape.kind).collect();
    assert_eq!(kinds, vec![ClosureEscapeKind::Storage, ClosureEscapeKind::Return]);
}

#[test]
fn bindings_of_one_name_have_different_identities() {
    let mut s = Source::new();
    let one = s.number(1);
    let first = s.bind("value", None, Some(one));
    let used = s.var("value");
    let closure = s.closure(&["x"], used);
    let f = s.bind("f", None, Some(closure));
    let two = s.number(2);
    let second = s.bind("value", None, Some(two));
    let used = s.var("value");
    let closure = s.closure(&[], used);
    let g = s.bind("g", None, Some(closure));
    let analysis = s.analyze(vec![first, f, second, g]);
    // The parameter of the first closure and `f` are declared in between.
    assert_eq!(analysis.closures[0].captures[0].binding_id, 0);
    assert_eq!(analysis.closures[1].captures[0].binding_id, 3);
}
