//! Reference-counted cells: `Arc::new`, `clone` and `borrow`.

use vstd::prelude::*;

use crate::ast::Expr;
use crate::diag::Span;
use crate::lower::context::LowerCtx;
use crate::lower::state::LowerState;
use crate::lower::values::{
    is_ref_expr, is_ref_type, lowered_option_view, placeholder, rvalue_option_view, LoweredValue,
    LoweredView, Step, StepView,
};
use crate::mir::{LocalId, Rvalue, RvalueView};
use crate::table::value_of;
use crate::text::{concat3, same_text};
use crate::types::{
    canonical_application, canonical_argument, Mutability, Type, TypeView, ARC_TYPE_CONSTRUCTOR,
};

verus! {

/// What is said of an `Arc` over a reference.
pub const BORROWED_ARC: &'static str = "Arc::new cannot own a borrowed reference; move an owned value into the Arc";

impl LowerState {
    /// Whether a call is the construction of a compiler-owned `Arc`. A user
    /// declaration of that name keeps its ordinary meaning.
    pub open spec fn is_arc_new(self, name: Seq<char>) -> bool {
        name == "Arc::new"@ && self.resolver.names_struct("Arc"@, "std/sync"@, "Arc"@)
    }

    /// What `Arc::new` asks for first.
    pub open spec fn beginning_arc_new(self, args: Seq<Expr>, span: Span) -> (LowerState, StepView) {
        if args.len() != 1 {
            (
                self.error("Arc::new expects exactly one argument"@, Some(span)),
                StepView::Done(placeholder()),
            )
        } else if args[0] is Ref {
            (self.error(BORROWED_ARC@, Some(span)), StepView::Done(placeholder()))
        } else {
            (self, StepView::Wants { index: 0, expected: None })
        }
    }

    /// `Arc::new` of a lowered value.
    pub open spec fn finishing_arc_new(self, value: Option<LoweredView>, span: Span) -> (
        LowerState,
        Option<RvalueView>,
    ) {
        match value {
            None => (self, placeholder()),
            Some(LoweredView { ty: None, .. }) => (
                self.error("could not infer type for Arc::new argument"@, Some(span)),
                placeholder(),
            ),
            Some(LoweredView { value, ty: Some(ty) }) => if ty is Ref {
                (self.error(BORROWED_ARC@, Some(span)), placeholder())
            } else {
                let result = LocalId(self.next_local);
                (
                    self.with_typed_local(canonical_application(ARC_TYPE_CONSTRUCTOR@, ty)).assigned(
                        result,
                        RvalueView::ArcNew { value, elem_type: ty },
                    ),
                    Some(RvalueView::Move(result)),
                )
            },
        }
    }

    /// The local behind a receiver that is a canonical `Arc`, and what the cell
    /// holds.
    pub open spec fn arc_receiver(self, receiver: Expr) -> Option<(LocalId, TypeView)> {
        match receiver {
            Expr::Ident(name, _) => match value_of(self.bindings, name.0@) {
                Some(local) => match self.local_type(local) {
                    Some(ty) => match canonical_argument(ty, ARC_TYPE_CONSTRUCTOR@) {
                        Some(inner) => if self.is_available(local) {
                            Some((local, inner))
                        } else {
                            None
                        },
                        None => None,
                    },
                    None => None,
                },
                None => None,
            },
            _ => None,
        }
    }

    /// What is reported of a receiver of `Arc` methods.
    pub open spec fn checking_arc_receiver(self, receiver: Expr) -> LowerState {
        match receiver {
            Expr::Ident(name, span) => match value_of(self.bindings, name.0@) {
                Some(local) => self.checking_available(local, Some(span)),
                None => self.error("unknown identifier '"@ + name.0@ + "'"@, Some(span)),
            },
            _ => self,
        }
    }

    /// A method of a canonical `Arc`. `None` means that the receiver is no such
    /// cell, or has no such method, and normal method resolution continues.
    #[verifier::opaque]
    pub open spec fn arc_method(
        self,
        receiver: Expr,
        method: Seq<char>,
        args: Seq<Expr>,
        span: Span,
    ) -> (LowerState, Option<Option<RvalueView>>) {
        let checked = self.checking_arc_receiver(receiver);
        match self.arc_receiver(receiver) {
            None => (checked, None),
            Some((base, elem_type)) => {
                let result = LocalId(checked.next_local);
                if method == "clone"@ || method == "borrow"@ {
                    if args.len() != 0 {
                        (
                            checked.error(
                                "Arc."@ + method + "() does not take arguments"@,
                                Some(span),
                            ),
                            Some(None),
                        )
                    } else if method == "clone"@ {
                        (
                            checked.with_typed_local(
                                canonical_application(ARC_TYPE_CONSTRUCTOR@, elem_type),
                            ).assigned(result, RvalueView::ArcClone { base, elem_type }),
                            Some(Some(RvalueView::Move(result))),
                        )
                    } else {
                        (
                            checked.with_typed_local(
                                TypeView::Ref(Box::new(elem_type), Mutability::Immutable),
                            ).assigned(
                                result,
                                RvalueView::ArcBorrow { base, elem_type },
                            ).registering_arc_borrow(result, base, span),
                            Some(Some(RvalueView::Move(result))),
                        )
                    }
                } else if method == "borrow_mut"@ || method == "get_mut"@ {
                    (
                        checked.error(
                            "Arc<T> provides immutable access only; use Mutex<T> for shared mutation"@,
                            Some(span),
                        ),
                        Some(None),
                    )
                } else {
                    (checked, None)
                }
            },
        }
    }
}

pub open spec fn method_result_view(result: Option<Option<Rvalue>>) -> Option<Option<RvalueView>> {
    match result {
        Some(value) => Some(rvalue_option_view(value)),
        None => None,
    }
}

impl<'a> LowerCtx<'a> {
    /// Static construction is intrinsic only when `Arc` resolved to the
    /// compiler-owned declaration. Matching the call's spelling is insufficient.
    pub fn is_canonical_arc_new(&self, name: &str) -> (canonical: bool)
        ensures
            canonical == self@.is_arc_new(name@),
    {
        same_text(name, "Arc::new") && self.resolver.is_struct_symbol("Arc", "std/sync", "Arc")
    }

    /// Starts `Arc::new`.
    pub fn begin_arc_new(&mut self, args: &Vec<Expr>, span: Span) -> (step: Step)
        ensures
            (final(self)@, step@) == old(self)@.beginning_arc_new(args@, span),
    {
        if args.len() != 1 {
            self.error("Arc::new expects exactly one argument", Some(span));
            return Step::Done(Some(Rvalue::ConstInt(0)));
        }
        if is_ref_expr(&args[0]) {
            self.error(BORROWED_ARC, Some(span));
            return Step::Done(Some(Rvalue::ConstInt(0)));
        }
        Step::Wants { index: 0, expected: None }
    }

    /// Finishes `Arc::new` with the lowered argument.
    pub fn lower_arc_new(&mut self, value: Option<LoweredValue>, span: Span) -> (result: Option<Rvalue>)
        ensures
            (final(self)@, rvalue_option_view(result)) == old(self)@.finishing_arc_new(
                lowered_option_view(value),
                span,
            ),
    {
        let lowered = match value {
            Some(lowered) => lowered,
            None => {
                return Some(Rvalue::ConstInt(0));
            },
        };
        let elem_type = match lowered.ty {
            Some(ty) => ty,
            None => {
                self.error("could not infer type for Arc::new argument", Some(span));
                return Some(Rvalue::ConstInt(0));
            },
        };
        if is_ref_type(&elem_type) {
            self.error(BORROWED_ARC, Some(span));
            return Some(Rvalue::ConstInt(0));
        }
        let result = self.typed_local(Type::arc(elem_type.clone()));
        self.assign(result, Rvalue::ArcNew { value: lowered.value, elem_type });
        Some(Rvalue::Move(result))
    }

    fn arc_receiver(&mut self, receiver: &Expr) -> (found: Option<(LocalId, Type)>)
        ensures
            final(self)@ == old(self)@.checking_arc_receiver(*receiver),
            match found {
                Some((local, inner)) => old(self)@.arc_receiver(*receiver) == Some((local, inner@)),
                None => old(self)@.arc_receiver(*receiver) is None,
            },
    {
        match receiver {
            Expr::Ident(name, span) => match self.bound_local(name.0.as_str()) {
                Some(local) => {
                    if !self.check_local_available(local, Some(*span)) {
                        return None;
                    }
                    match self.local_ty(local) {
                        Some(ty) => match ty.arc_inner_type() {
                            Some(inner) => Some((local, inner.clone())),
                            None => None,
                        },
                        None => None,
                    }
                },
                None => {
                    let message = concat3("unknown identifier '", name.0.as_str(), "'");
                    self.error(message.as_str(), Some(*span));
                    None
                },
            },
            _ => None,
        }
    }

    fn require_no_arc_args(&mut self, method: &str, args: &Vec<Expr>, span: Span) -> (none: bool)
        ensures
            none == (args@.len() == 0),
            final(self)@ == (if none {
                old(self)@
            } else {
                old(self)@.error("Arc."@ + method@ + "() does not take arguments"@, Some(span))
            }),
    {
        if args.len() == 0 {
            true
        } else {
            let message = concat3("Arc.", method, "() does not take arguments");
            self.error(message.as_str(), Some(span));
            false
        }
    }

    /// A method of a canonical `Arc`. `None` means that the receiver is no such
    /// cell, or has no such method, and normal method resolution continues;
    /// `Some(None)` that the call was recognized but is invalid and reported.
    pub fn lower_arc_method(
        &mut self,
        receiver: &Expr,
        method: &str,
        args: &Vec<Expr>,
        span: Span,
    ) -> (result: Option<Option<Rvalue>>)
        ensures
            (final(self)@, method_result_view(result)) == old(self)@.arc_method(
                *receiver,
                method@,
                args@,
                span,
            ),
    {
        proof {
            reveal(LowerState::arc_method);
        }
        let (base, elem_type) = match self.arc_receiver(receiver) {
            Some(found) => found,
            None => {
                return None;
            },
        };
        if same_text(method, "clone") {
            if !self.require_no_arc_args(method, args, span) {
                return Some(None);
            }
            let result = self.typed_local(Type::arc(elem_type.clone()));
            self.assign(result, Rvalue::ArcClone { base, elem_type });
            Some(Some(Rvalue::Move(result)))
        } else if same_text(method, "borrow") {
            if !self.require_no_arc_args(method, args, span) {
                return Some(None);
            }
            let ty = Type::Ref(Box::new(elem_type.clone()), Mutability::Immutable);
            let result = self.typed_local(ty);
            self.assign(result, Rvalue::ArcBorrow { base, elem_type });
            self.register_arc_borrow(result, base, span);
            Some(Some(Rvalue::Move(result)))
        } else if same_text(method, "borrow_mut") || same_text(method, "get_mut") {
            self.error(
                "Arc<T> provides immutable access only; use Mutex<T> for shared mutation",
                Some(span),
            );
            Some(None)
        } else {
            None
        }
    }
}

} // verus!
