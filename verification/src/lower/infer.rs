//! Types of expressions as far as they show without lowering them.

use vstd::prelude::*;

use crate::ast::{Expr, Literal, UnaryOp};
use crate::lower::context::LowerCtx;
use crate::lower::state::LowerState;
use crate::table::value_of;
use crate::types::{type_option_view, Type, TypeView};

verus! {

/// The struct that a type names, directly or behind a reference.
pub open spec fn named_struct(ty: TypeView) -> Option<Seq<char>> {
    match ty {
        TypeView::Named(name) => Some(name),
        TypeView::Ref(inner, _) => match *inner {
            TypeView::Named(name) => Some(name),
            _ => None,
        },
        _ => None,
    }
}

pub(crate) fn struct_named(ty: &Type) -> (name: Option<&String>)
    ensures
        match name {
            Some(name) => named_struct(ty@) == Some(name@),
            None => named_struct(ty@) is None,
        },
{
    match ty {
        Type::Named(name) => Some(name),
        Type::Ref(inner, _) => {
            let target: &Type = inner;
            assert(*(ty@->Ref_0) == target@);
            match target {
                Type::Named(name) => Some(name),
                _ => None,
            }
        },
        _ => None,
    }
}

impl LowerState {
    /// The type of an expression as far as it shows without lowering it.
    pub open spec fn inferred(self, expr: Expr) -> Option<TypeView>
        decreases expr,
    {
        match expr {
            Expr::Ident(name, _) => match value_of(self.bindings, name.0@) {
                Some(local) => self.local_type(local),
                None => None,
            },
            Expr::Lit(Literal::Int(_), _) => Some(TypeView::I32),
            Expr::Lit(Literal::Bool(_), _) => Some(TypeView::Bool),
            Expr::Lit(Literal::Char(_), _) => Some(TypeView::Char),
            Expr::Lit(Literal::Str(_), _) => Some(TypeView::Str),
            Expr::InterpString { .. } => Some(TypeView::Str),
            Expr::Unary { op: UnaryOp::Not, .. } => Some(TypeView::Bool),
            Expr::StructLit { name, .. } => Some(TypeView::Named(name.0@)),
            Expr::FieldAccess { base, field, .. } => match self.inferred(*base) {
                Some(ty) => match named_struct(ty) {
                    Some(structure) => self.resolver.field_type(structure, field.0@),
                    None => None,
                },
                None => None,
            },
            Expr::Ref { expr: target, mutability, .. } => match self.inferred(*target) {
                Some(ty) => Some(TypeView::Ref(Box::new(ty), mutability)),
                None => None,
            },
            _ => None,
        }
    }
}

impl<'a> LowerCtx<'a> {
    /// The type of an expression as far as it shows without lowering it.
    pub fn infer_expr_type(&self, expr: &Expr) -> (ty: Option<Type>)
        ensures
            type_option_view(ty) == self@.inferred(*expr),
        decreases expr,
    {
        match expr {
            Expr::Ident(name, _) => match self.bound_local(name.0.as_str()) {
                Some(local) => match self.local_ty(local) {
                    Some(ty) => Some(ty.clone()),
                    None => None,
                },
                None => None,
            },
            Expr::Lit(Literal::Int(_), _) => Some(Type::I32),
            Expr::Lit(Literal::Bool(_), _) => Some(Type::Bool),
            Expr::Lit(Literal::Char(_), _) => Some(Type::Char),
            Expr::Lit(Literal::Str(_), _) => Some(Type::Str),
            Expr::InterpString { .. } => Some(Type::Str),
            Expr::Unary { op: UnaryOp::Not, .. } => Some(Type::Bool),
            Expr::StructLit { name, .. } => Some(Type::Named(name.0.clone())),
            Expr::FieldAccess { base, field, .. } => match self.infer_expr_type(base) {
                Some(ty) => match struct_named(&ty) {
                    Some(structure) => self.resolver.get_field(
                        structure.as_str(),
                        field.0.as_str(),
                    ),
                    None => None,
                },
                None => None,
            },
            Expr::Ref { expr: target, mutability, .. } => match self.infer_expr_type(target) {
                Some(ty) => Some(Type::Ref(Box::new(ty), *mutability)),
                None => None,
            },
            _ => None,
        }
    }
}

} // verus!
