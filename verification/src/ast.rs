//! The parts of the syntax tree that analyses and lowering read.

use vstd::prelude::*;

use crate::diag::Span;
use crate::text::texts_view;
use crate::types::Mutability;

verus! {

#[derive(Debug, Clone, Copy, PartialEq, Eq, Hash, Structural)]
pub enum BinaryOp {
    Add,
    Sub,
    Mul,
    Div,
    Mod,
    Eq,
    Ne,
    Lt,
    Le,
    Gt,
    Ge,
    And,
    Or,
}

#[derive(Debug, Clone, Copy, PartialEq, Eq, Hash, Structural)]
pub enum UnaryOp {
    Neg,
    Not,
}

/// Whether a closure was written with `move`.
#[derive(Debug, Clone, Copy, PartialEq, Eq, Hash, Structural)]
pub enum CaptureMode {
    Infer,
    Move,
}

#[derive(Debug, Clone, PartialEq, Eq)]
pub struct Ident(pub String);

#[derive(Debug, PartialEq, Eq)]
pub enum TypeExpr {
    Path { segments: Vec<String>, span: Span },
    App { base: Box<TypeExpr>, args: Vec<TypeExpr>, span: Span },
    Ref { inner: Box<TypeExpr>, mutability: Mutability, span: Span },
    Array { elem: Box<TypeExpr>, size: usize, span: Span },
    Tuple { elements: Vec<TypeExpr>, span: Span },
}

/// The mathematical model of a [`TypeExpr`].
pub enum TypeExprView {
    Path { segments: Seq<Seq<char>>, span: Span },
    App { base: Box<TypeExprView>, args: Seq<TypeExprView>, span: Span },
    Ref { inner: Box<TypeExprView>, mutability: Mutability, span: Span },
    Array { elem: Box<TypeExprView>, size: usize, span: Span },
    Tuple { elements: Seq<TypeExprView>, span: Span },
}

pub open spec fn type_expr_view(ty: TypeExpr) -> TypeExprView
    decreases ty,
{
    match ty {
        TypeExpr::Path { segments, span } => TypeExprView::Path {
            segments: texts_view(segments@),
            span,
        },
        TypeExpr::App { base, args, span } => TypeExprView::App {
            base: Box::new(type_expr_view(*base)),
            args: type_exprs_view(args@),
            span,
        },
        TypeExpr::Ref { inner, mutability, span } => TypeExprView::Ref {
            inner: Box::new(type_expr_view(*inner)),
            mutability,
            span,
        },
        TypeExpr::Array { elem, size, span } => TypeExprView::Array {
            elem: Box::new(type_expr_view(*elem)),
            size,
            span,
        },
        TypeExpr::Tuple { elements, span } => TypeExprView::Tuple {
            elements: type_exprs_view(elements@),
            span,
        },
    }
}

pub open spec fn type_exprs_view(types: Seq<TypeExpr>) -> Seq<TypeExprView>
    decreases types,
{
    Seq::new(
        types.len(),
        |i: int|
            if 0 <= i < types.len() {
                type_expr_view(types[i])
            } else {
                arbitrary()
            },
    )
}

impl View for TypeExpr {
    type V = TypeExprView;

    open spec fn view(&self) -> TypeExprView {
        type_expr_view(*self)
    }
}

impl Clone for TypeExpr {
    fn clone(&self) -> (copy: TypeExpr)
        ensures
            copy@ == self@,
        decreases self,
    {
        match self {
            TypeExpr::Path { segments, span } => TypeExpr::Path {
                segments: crate::text::clone_texts(segments),
                span: *span,
            },
            TypeExpr::App { base, args, span } => TypeExpr::App {
                base: Box::new((**base).clone()),
                args: clone_type_exprs(args),
                span: *span,
            },
            TypeExpr::Ref { inner, mutability, span } => TypeExpr::Ref {
                inner: Box::new((**inner).clone()),
                mutability: *mutability,
                span: *span,
            },
            TypeExpr::Array { elem, size, span } => TypeExpr::Array {
                elem: Box::new((**elem).clone()),
                size: *size,
                span: *span,
            },
            TypeExpr::Tuple { elements, span } => TypeExpr::Tuple {
                elements: clone_type_exprs(elements),
                span: *span,
            },
        }
    }
}

fn clone_type_exprs(types: &Vec<TypeExpr>) -> (copy: Vec<TypeExpr>)
    ensures
        type_exprs_view(copy@) == type_exprs_view(types@),
    decreases types,
{
    let mut copy: Vec<TypeExpr> = Vec::new();
    let mut i: usize = 0;
    while i < types.len()
        invariant
            i <= types.len(),
            copy.len() == i,
            forall|j: int| 0 <= j < i ==> (#[trigger] copy[j])@ == types[j]@,
        decreases types.len() - i,
    {
        copy.push(types[i].clone());
        i += 1;
    }
    assert(type_exprs_view(copy@) =~= type_exprs_view(types@));
    copy
}

/// Whether two type expressions are the same, positions included.
pub fn same_type_expr(a: &TypeExpr, b: &TypeExpr) -> (same: bool)
    ensures
        same == (a@ == b@),
    decreases a,
{
    match (a, b) {
        (TypeExpr::Path { segments: x, span: s }, TypeExpr::Path { segments: y, span: t }) => *s
            == *t && crate::text::same_texts(x, y),
        (
            TypeExpr::App { base: x, args: p, span: s },
            TypeExpr::App { base: y, args: q, span: t },
        ) => *s == *t && same_type_expr(x, y) && same_type_exprs(p, q),
        (
            TypeExpr::Ref { inner: x, mutability: m, span: s },
            TypeExpr::Ref { inner: y, mutability: n, span: t },
        ) => *s == *t && *m == *n && same_type_expr(x, y),
        (
            TypeExpr::Array { elem: x, size: m, span: s },
            TypeExpr::Array { elem: y, size: n, span: t },
        ) => *s == *t && *m == *n && same_type_expr(x, y),
        (TypeExpr::Tuple { elements: p, span: s }, TypeExpr::Tuple { elements: q, span: t }) => *s
            == *t && same_type_exprs(p, q),
        _ => false,
    }
}

fn same_type_exprs(a: &Vec<TypeExpr>, b: &Vec<TypeExpr>) -> (same: bool)
    ensures
        same == (type_exprs_view(a@) == type_exprs_view(b@)),
    decreases a,
{
    if a.len() != b.len() {
        assert(type_exprs_view(a@).len() != type_exprs_view(b@).len());
        return false;
    }
    let mut i: usize = 0;
    while i < a.len()
        invariant
            i <= a.len(),
            a.len() == b.len(),
            forall|j: int| 0 <= j < i ==> (#[trigger] a[j])@ == b[j]@,
        decreases a.len() - i,
    {
        if !same_type_expr(&a[i], &b[i]) {
            assert(type_exprs_view(a@)[i as int] != type_exprs_view(b@)[i as int]);
            return false;
        }
        i += 1;
    }
    assert(type_exprs_view(a@) =~= type_exprs_view(b@));
    true
}

impl TypeExprView {
    pub open spec fn position(self) -> Span {
        match self {
            TypeExprView::Path { span, .. } => span,
            TypeExprView::App { span, .. } => span,
            TypeExprView::Ref { span, .. } => span,
            TypeExprView::Array { span, .. } => span,
            TypeExprView::Tuple { span, .. } => span,
        }
    }
}

impl TypeExpr {
    pub fn span(&self) -> (span: Span)
        ensures
            span == self@.position(),
    {
        match self {
            TypeExpr::Path { span, .. } => *span,
            TypeExpr::App { span, .. } => *span,
            TypeExpr::Ref { span, .. } => *span,
            TypeExpr::Array { span, .. } => *span,
            TypeExpr::Tuple { span, .. } => *span,
        }
    }
}

#[derive(Debug, Clone, PartialEq, Eq)]
pub enum Literal {
    Int(i64),
    /// A floating-point literal by its IEEE 754 bits.
    Float(u64),
    Bool(bool),
    Str(String),
    Char(char),
}

#[derive(Debug, Clone, PartialEq, Eq)]
pub struct Param {
    pub name: Ident,
    pub ty: Option<TypeExpr>,
    pub span: Span,
}

#[derive(Debug, PartialEq, Eq)]
pub struct Block {
    pub stmts: Vec<Stmt>,
    pub span: Span,
}

#[derive(Debug, PartialEq, Eq)]
pub enum Stmt {
    Expr(Expr, Span),
    Ret(Option<Expr>, Span),
    Let { mutable: bool, name: Ident, ty: Option<TypeExpr>, value: Option<Expr>, span: Span },
    Assign { target: Expr, value: Expr, span: Span },
    Break(Span),
    Continue(Span),
}

/// A piece of an interpolated string.
#[derive(Debug, PartialEq, Eq)]
pub enum InterpSegment {
    Literal(String),
    Expr(Expr),
}

#[derive(Debug, Clone, PartialEq, Eq)]
pub enum MatchPattern {
    Wildcard,
    Literal(Literal),
    Variant { name: Ident, binding: Option<Ident> },
}

#[derive(Debug, PartialEq, Eq)]
pub struct MatchArm {
    pub pattern: MatchPattern,
    pub expr: Expr,
    pub span: Span,
}

#[derive(Debug, PartialEq, Eq)]
pub enum Expr {
    Lit(Literal, Span),
    InterpString { segments: Vec<InterpSegment>, span: Span },
    Ident(Ident, Span),
    Unary { op: UnaryOp, expr: Box<Expr>, span: Span },
    Try { expr: Box<Expr>, span: Span },
    Cast { expr: Box<Expr>, target: TypeExpr, span: Span },
    Ref { expr: Box<Expr>, mutability: Mutability, span: Span },
    Binary { op: BinaryOp, lhs: Box<Expr>, rhs: Box<Expr>, span: Span },
    Call { callee: Box<Expr>, args: Vec<Expr>, span: Span },
    If { cond: Box<Expr>, then_block: Block, else_block: Option<Block>, span: Span },
    Block(Block),
    StructLit { name: Ident, fields: Vec<(Ident, Expr)>, span: Span },
    FieldAccess { base: Box<Expr>, field: Ident, span: Span },
    While { cond: Box<Expr>, body: Block, span: Span },
    For { var: Ident, start: Box<Expr>, end: Box<Expr>, body: Block, span: Span },
    ForIn { var: Ident, iter: Box<Expr>, body: Block, span: Span },
    ArrayLit { elements: Vec<Expr>, span: Span },
    Tuple { elements: Vec<Expr>, span: Span },
    Index { base: Box<Expr>, index: Box<Expr>, span: Span },
    MethodCall { receiver: Box<Expr>, method: Ident, args: Vec<Expr>, span: Span },
    Match { scrutinee: Box<Expr>, arms: Vec<MatchArm>, span: Span },
    Closure { capture: CaptureMode, params: Vec<Param>, body: Box<Expr>, span: Span },
}

#[derive(Debug, PartialEq, Eq)]
pub struct Function {
    pub name: Ident,
    pub params: Vec<Param>,
    pub ret_type: Option<TypeExpr>,
    pub body: Block,
    pub span: Span,
}

#[derive(Debug, Clone, PartialEq, Eq)]
pub struct FieldDef {
    pub name: Ident,
    pub ty: TypeExpr,
    pub span: Span,
}

/// An interface implemented inside a struct definition.
#[derive(Debug, PartialEq, Eq)]
pub struct InlineImpl {
    pub interface: Ident,
    pub methods: Vec<Function>,
    pub span: Span,
}

#[derive(Debug, PartialEq, Eq)]
pub struct StructDef {
    pub name: Ident,
    pub generic_params: Vec<Ident>,
    pub interfaces: Vec<Ident>,
    pub fields: Vec<FieldDef>,
    pub methods: Vec<Function>,
    pub inline_impls: Vec<InlineImpl>,
    pub span: Span,
}

#[derive(Debug, Clone, PartialEq, Eq)]
pub struct EnumVariantDef {
    pub name: Ident,
    pub payload: Option<TypeExpr>,
    pub span: Span,
}

#[derive(Debug, Clone, PartialEq, Eq)]
pub struct EnumDef {
    pub name: Ident,
    pub generic_params: Vec<Ident>,
    pub variants: Vec<EnumVariantDef>,
    pub span: Span,
}

#[derive(Debug, Clone, PartialEq, Eq)]
pub struct InterfaceMethod {
    pub name: Ident,
    pub params: Vec<Param>,
    pub ret_type: Option<TypeExpr>,
    pub span: Span,
}

#[derive(Debug, Clone, PartialEq, Eq)]
pub struct InterfaceDef {
    pub name: Ident,
    pub methods: Vec<InterfaceMethod>,
    pub span: Span,
}

#[derive(Debug, PartialEq, Eq)]
pub struct ImplBlock {
    pub interface: Ident,
    pub target: Ident,
    pub methods: Vec<Function>,
    pub span: Span,
}

/// A function that is defined outside the module's language.
#[derive(Debug, Clone, PartialEq, Eq)]
pub struct ExternFunctionDecl {
    pub name: Ident,
    pub params: Vec<Param>,
    pub ret_type: Option<TypeExpr>,
    pub span: Span,
}

#[derive(Debug, PartialEq, Eq)]
pub struct ConstDef {
    pub name: Ident,
    pub ty: TypeExpr,
    pub value: Expr,
    pub span: Span,
}

#[derive(Debug, PartialEq, Eq)]
pub enum Item {
    Struct(StructDef),
    Enum(EnumDef),
    Interface(InterfaceDef),
    Impl(ImplBlock),
    Function(Function),
    ExternFunction(ExternFunctionDecl),
    Const(ConstDef),
}

#[derive(Debug, PartialEq, Eq)]
pub struct Module {
    pub items: Vec<Item>,
}

} // verus!
