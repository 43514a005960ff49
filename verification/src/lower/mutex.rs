//! Locked cells: `Mutex::new`, `lock`, `try_lock` and access through guards.

use vstd::prelude::*;

use crate::ast::Expr;
use crate::diag::Span;
use crate::lower::arc::method_result_view;
use crate::lower::context::LowerCtx;
use crate::lower::state::{LocalState, LowerState};
use crate::lower::values::{
    is_ref_expr, is_ref_type, lowered_option_view, placeholder, rvalue_option_view, LoweredValue,
    LoweredView, Step, StepView,
};
use crate::mir::{LocalId, MirInst, MirInstView, MirValue, Rvalue, RvalueView};
use crate::table::value_of;
use crate::text::{concat3, same_text};
use crate::types::{
    canonical_application, canonical_argument, types_view, Mutability, Type, TypeView,
    MUTEX_GUARD_TYPE_CONSTRUCTOR, MUTEX_TYPE_CONSTRUCTOR,
};

verus! {

/// What is said of a `Mutex` over a reference.
pub const BORROWED_MUTEX: &'static str = "Mutex::new cannot own a borrowed reference";

impl LowerState {
    /// Whether a call is the construction of a compiler-owned `Mutex`.
    pub open spec fn is_mutex_new(self, name: Seq<char>) -> bool {
        name == "Mutex::new"@ && self.resolver.names_struct("Mutex"@, "std/sync"@, "Mutex"@)
    }

    /// What `Mutex::new` asks for first.
    pub open spec fn beginning_mutex_new(self, args: Seq<Expr>, span: Span) -> (
        LowerState,
        StepView,
    ) {
        if args.len() != 1 {
            (
                self.error("Mutex::new expects exactly one argument"@, Some(span)),
                StepView::Done(placeholder()),
            )
        } else if args[0] is Ref {
            (self.error(BORROWED_MUTEX@, Some(span)), StepView::Done(placeholder()))
        } else {
            (self, StepView::Wants { index: 0, expected: None })
        }
    }

    /// `Mutex::new` of a lowered value.
    pub open spec fn finishing_mutex_new(self, value: Option<LoweredView>, span: Span) -> (
        LowerState,
        Option<RvalueView>,
    ) {
        match value {
            Some(LoweredView { value, ty: Some(ty) }) => if ty is Ref {
                (self.error(BORROWED_MUTEX@, Some(span)), placeholder())
            } else {
                let result = LocalId(self.next_local);
                (
                    self.with_typed_local(
                        canonical_application(MUTEX_TYPE_CONSTRUCTOR@, ty),
                    ).assigned(result, RvalueView::MutexNew { value, elem_type: ty }),
                    Some(RvalueView::Move(result)),
                )
            },
            _ => (self, None),
        }
    }

    /// The local that a receiver names.
    pub open spec fn named_local(self, receiver: Expr) -> Option<LocalId> {
        match receiver {
            Expr::Ident(name, _) => value_of(self.bindings, name.0@),
            _ => None,
        }
    }

    /// What is reported of a receiver whose value is wanted.
    pub open spec fn checking_named(self, receiver: Expr) -> LowerState {
        match (receiver, self.named_local(receiver)) {
            (Expr::Ident(_, span), Some(local)) => self.checking_available(local, Some(span)),
            _ => self,
        }
    }

    /// The type of the local that a receiver names, if its value can be read.
    pub open spec fn readable(self, receiver: Expr) -> Option<(LocalId, TypeView)> {
        match self.named_local(receiver) {
            Some(local) => match self.local_type(local) {
                Some(ty) => if self.is_available(local) {
                    Some((local, ty))
                } else {
                    None
                },
                None => None,
            },
            None => None,
        }
    }

    /// The mutex behind a receiver, which may be a reference to one, and what it
    /// locks.
    pub open spec fn mutex_receiver(self, receiver: Expr) -> Option<(LocalId, TypeView)> {
        match self.readable(receiver) {
            Some((local, ty)) => match canonical_argument(ty, MUTEX_TYPE_CONSTRUCTOR@) {
                Some(inner) => Some((local, inner)),
                None => match ty {
                    TypeView::Ref(target, _) => match canonical_argument(
                        *target,
                        MUTEX_TYPE_CONSTRUCTOR@,
                    ) {
                        Some(inner) => Some((local, inner)),
                        None => None,
                    },
                    _ => None,
                },
            },
            None => None,
        }
    }

    /// The guard behind a receiver and what it gives access to.
    pub open spec fn guard_receiver(self, receiver: Expr) -> Option<(LocalId, TypeView)> {
        match self.readable(receiver) {
            Some((local, ty)) => match canonical_argument(ty, MUTEX_GUARD_TYPE_CONSTRUCTOR@) {
                Some(inner) => Some((local, inner)),
                None => None,
            },
            None => None,
        }
    }

    /// An attempt to lock: the result is an option that holds the guard where
    /// the lock was acquired.
    pub open spec fn trying_lock(self, owner: LocalId, elem_type: TypeView, span: Span) -> (
        LowerState,
        RvalueView,
    ) {
        let guard_type = canonical_application(MUTEX_GUARD_TYPE_CONSTRUCTOR@, elem_type);
        let guard = LocalId(self.next_local);
        let tried = self.with_typed_local(guard_type).assigned(
            guard,
            RvalueView::MutexTryLock { base: owner, elem_type },
        );
        let acquired = LocalId(tried.next_local);
        let asked = tried.with_typed_local(TypeView::Bool).assigned(
            acquired,
            RvalueView::MutexGuardIsAcquired { guard, elem_type },
        );
        let some_block = asked.next_block();
        let none_block = asked.with_new_block().next_block();
        let join_block = asked.with_new_block().with_new_block().next_block();
        let open = asked.with_new_block().with_new_block().with_new_block();
        let result = LocalId(open.next_local);
        let typed = open.with_typed_local(
            TypeView::App { base: "Option"@, args: seq![guard_type] },
        );
        let split = LowerState {
            try_lock_options: typed.try_lock_options.insert(result.0),
            ..typed
        }.pushed(
            MirInstView::If {
                cond: MirValue::Local(acquired),
                then_bb: some_block,
                else_bb: none_block,
            },
        );
        let locked = split.at_block(some_block).assigned(
            result,
            RvalueView::EnumConstruct {
                enum_name: "Option"@,
                variant_index: 1,
                payload: Some(MirValue::Local(guard)),
            },
        ).pushed(MirInstView::Goto(join_block));
        let missed = locked.with_state(result, LocalState::Uninitialized).at_block(
            none_block,
        ).with_state(guard, LocalState::Moved).assigned(
            result,
            RvalueView::EnumConstruct { enum_name: "Option"@, variant_index: 0, payload: None },
        ).pushed(MirInstView::Goto(join_block));
        (
            missed.with_state(result, LocalState::Initialized).at_block(
                join_block,
            ).registering_guard(result, owner, span),
            RvalueView::Move(result),
        )
    }

    /// A method of a mutex or a guard. `None` means that the receiver is neither,
    /// or has no such method, and normal method resolution continues.
    #[verifier::opaque]
    pub open spec fn mutex_method(
        self,
        receiver: Expr,
        method: Seq<char>,
        args: Seq<Expr>,
        span: Span,
    ) -> (LowerState, Option<Option<RvalueView>>) {
        let checked = self.checking_named(receiver);
        let arguments = checked.error("Mutex."@ + method + "() does not take arguments"@, Some(span));
        let result = LocalId(checked.next_local);
        if method == "borrow"@ || method == "borrow_mut"@ {
            match self.guard_receiver(receiver) {
                None => (checked, None),
                Some((guard, elem_type)) => if args.len() != 0 {
                    (arguments, Some(None))
                } else {
                    (
                        checked.with_typed_local(
                            TypeView::Ref(Box::new(elem_type), Mutability::Mutable),
                        ).assigned(
                            result,
                            RvalueView::MutexGuardBorrow { guard, elem_type },
                        ).registering_guard_borrow(result, guard, receiver->Ident_1),
                        Some(Some(RvalueView::Move(result))),
                    )
                },
            }
        } else if method == "lock"@ || method == "try_lock"@ {
            match self.mutex_receiver(receiver) {
                None => (checked, None),
                Some((owner, elem_type)) => if args.len() != 0 {
                    (arguments, Some(None))
                } else if method == "try_lock"@ {
                    let (tried, value) = checked.trying_lock(owner, elem_type, span);
                    (tried, Some(Some(value)))
                } else {
                    (
                        checked.with_typed_local(
                            canonical_application(MUTEX_GUARD_TYPE_CONSTRUCTOR@, elem_type),
                        ).assigned(
                            result,
                            RvalueView::MutexLock { base: owner, elem_type },
                        ).registering_guard(result, owner, span),
                        Some(Some(RvalueView::Move(result))),
                    )
                },
            }
        } else {
            (self, None)
        }
    }
}

/// The application of a one-argument constructor that needs no canonical name.
pub(crate) fn generic_type(base: &str, argument: Type) -> (ty: Type)
    ensures
        ty@ == (TypeView::App { base: base@, args: seq![argument@] }),
{
    let ghost view = argument@;
    let args: Vec<Type> = vec![argument];
    assert(types_view(args@) =~= seq![view]);
    Type::App { base: base.to_owned(), args }
}

impl<'a> LowerCtx<'a> {
    pub fn is_canonical_mutex_new(&self, name: &str) -> (canonical: bool)
        ensures
            canonical == self@.is_mutex_new(name@),
    {
        same_text(name, "Mutex::new") && self.resolver.is_struct_symbol(
            "Mutex",
            "std/sync",
            "Mutex",
        )
    }

    /// Starts `Mutex::new`.
    pub fn begin_mutex_new(&mut self, args: &Vec<Expr>, span: Span) -> (step: Step)
        ensures
            (final(self)@, step@) == old(self)@.beginning_mutex_new(args@, span),
    {
        if args.len() != 1 {
            self.error("Mutex::new expects exactly one argument", Some(span));
            return Step::Done(Some(Rvalue::ConstInt(0)));
        }
        if is_ref_expr(&args[0]) {
            self.error(BORROWED_MUTEX, Some(span));
            return Step::Done(Some(Rvalue::ConstInt(0)));
        }
        Step::Wants { index: 0, expected: None }
    }

    /// Finishes `Mutex::new` with the lowered argument.
    pub fn lower_mutex_new(&mut self, value: Option<LoweredValue>, span: Span) -> (result: Option<
        Rvalue,
    >)
        ensures
            (final(self)@, rvalue_option_view(result)) == old(self)@.finishing_mutex_new(
                lowered_option_view(value),
                span,
            ),
    {
        let lowered = match value {
            Some(lowered) => lowered,
            None => {
                return None;
            },
        };
        let elem_type = match lowered.ty {
            Some(ty) => ty,
            None => {
                return None;
            },
        };
        if is_ref_type(&elem_type) {
            self.error(BORROWED_MUTEX, Some(span));
            return Some(Rvalue::ConstInt(0));
        }
        let result = self.typed_local(Type::mutex(elem_type.clone()));
        self.assign(result, Rvalue::MutexNew { value: lowered.value, elem_type });
        Some(Rvalue::Move(result))
    }

    /// The local that a receiver names, if its value can be read. The reason why
    /// not is reported.
    pub(crate) fn readable_receiver(&mut self, receiver: &Expr) -> (local: Option<LocalId>)
        ensures
            final(self)@ == old(self)@.checking_named(*receiver),
            local is Some ==> final(self)@ == old(self)@,
            match local {
                Some(local) => old(self)@.named_local(*receiver) == Some(local)
                    && old(self)@.is_available(local),
                None => old(self)@.readable(*receiver) is None,
            },
    {
        match receiver {
            Expr::Ident(name, span) => match self.bound_local(name.0.as_str()) {
                Some(local) => {
                    if self.check_local_available(local, Some(*span)) {
                        Some(local)
                    } else {
                        None
                    }
                },
                None => None,
            },
            _ => None,
        }
    }

    fn mutex_receiver(&mut self, receiver: &Expr) -> (found: Option<(LocalId, Type)>)
        ensures
            final(self)@ == old(self)@.checking_named(*receiver),
            match found {
                Some((local, inner)) => old(self)@.mutex_receiver(*receiver) == Some(
                    (local, inner@),
                ),
                None => old(self)@.mutex_receiver(*receiver) is None,
            },
    {
        let local = match self.readable_receiver(receiver) {
            Some(local) => local,
            None => {
                return None;
            },
        };
        match self.local_ty(local) {
            Some(ty) => match ty.mutex_inner_type() {
                Some(inner) => Some((local, inner.clone())),
                None => match ty {
                    Type::Ref(target, _) => {
                        let target: &Type = target;
                        assert(*(ty@->Ref_0) == target@);
                        match target.mutex_inner_type() {
                            Some(inner) => Some((local, inner.clone())),
                            None => None,
                        }
                    },
                    _ => None,
                },
            },
            None => None,
        }
    }

    fn guard_receiver(&mut self, receiver: &Expr) -> (found: Option<(LocalId, Type)>)
        ensures
            final(self)@ == old(self)@.checking_named(*receiver),
            match found {
                Some((local, inner)) => old(self)@.guard_receiver(*receiver) == Some(
                    (local, inner@),
                ),
                None => old(self)@.guard_receiver(*receiver) is None,
            },
    {
        let local = match self.readable_receiver(receiver) {
            Some(local) => local,
            None => {
                return None;
            },
        };
        match self.local_ty(local) {
            Some(ty) => match ty.mutex_guard_inner_type() {
                Some(inner) => Some((local, inner.clone())),
                None => None,
            },
            None => None,
        }
    }

    fn require_no_mutex_args(&mut self, method: &str, args: &Vec<Expr>, span: Span) -> (none: bool)
        ensures
            none == (args@.len() == 0),
            final(self)@ == (if none {
                old(self)@
            } else {
                old(self)@.error("Mutex."@ + method@ + "() does not take arguments"@, Some(span))
            }),
    {
        if args.len() == 0 {
            true
        } else {
            let message = concat3("Mutex.", method, "() does not take arguments");
            self.error(message.as_str(), Some(span));
            false
        }
    }

    /// An attempt to lock.
    pub fn lower_try_lock(&mut self, owner: LocalId, elem_type: Type, span: Span) -> (value: Rvalue)
        ensures
            (final(self)@, value@) == old(self)@.trying_lock(owner, elem_type@, span),
    {
        let guard = self.typed_local(Type::mutex_guard(elem_type.clone()));
        self.assign(guard, Rvalue::MutexTryLock { base: owner, elem_type: elem_type.clone() });
        let acquired = self.typed_local(Type::Bool);
        self.assign(
            acquired,
            Rvalue::MutexGuardIsAcquired { guard, elem_type: elem_type.clone() },
        );
        let some_block = self.new_block();
        let none_block = self.new_block();
        let join_block = self.new_block();
        let result = self.typed_local(generic_type("Option", Type::mutex_guard(elem_type)));
        self.mark_mutex_try_option(result);
        self.push_inst(
            MirInst::If {
                cond: MirValue::Local(acquired),
                then_bb: some_block,
                else_bb: none_block,
            },
        );
        self.switch_to(some_block);
        self.assign(
            result,
            Rvalue::EnumConstruct {
                enum_name: "Option".to_owned(),
                variant_index: 1,
                payload: Some(MirValue::Local(guard)),
            },
        );
        self.push_inst(MirInst::Goto(join_block));
        self.set_state(result, LocalState::Uninitialized);
        self.switch_to(none_block);
        self.set_state(guard, LocalState::Moved);
        self.assign(
            result,
            Rvalue::EnumConstruct {
                enum_name: "Option".to_owned(),
                variant_index: 0,
                payload: None,
            },
        );
        self.push_inst(MirInst::Goto(join_block));
        self.set_state(result, LocalState::Initialized);
        self.switch_to(join_block);
        self.register_mutex_guard(result, owner, span);
        Rvalue::Move(result)
    }

    /// A method of a mutex or a guard. `None` means that the receiver is neither,
    /// or has no such method, and normal method resolution continues.
    pub fn lower_mutex_method(
        &mut self,
        receiver: &Expr,
        method: &str,
        args: &Vec<Expr>,
        span: Span,
    ) -> (result: Option<Option<Rvalue>>)
        ensures
            (final(self)@, method_result_view(result)) == old(self)@.mutex_method(
                *receiver,
                method@,
                args@,
                span,
            ),
    {
        proof {
            reveal(LowerState::mutex_method);
        }
        if same_text(method, "borrow") || same_text(method, "borrow_mut") {
            let (guard, elem_type) = match self.guard_receiver(receiver) {
                Some(found) => found,
                None => {
                    return None;
                },
            };
            if !self.require_no_mutex_args(method, args, span) {
                return Some(None);
            }
            let origin = match receiver {
                Expr::Ident(_, origin) => *origin,
                _ => span,
            };
            let ty = Type::Ref(Box::new(elem_type.clone()), Mutability::Mutable);
            let result = self.typed_local(ty);
            self.assign(result, Rvalue::MutexGuardBorrow { guard, elem_type });
            self.register_mutex_guard_borrow(result, guard, origin);
            return Some(Some(Rvalue::Move(result)));
        }
        if !same_text(method, "lock") && !same_text(method, "try_lock") {
            return None;
        }
        let (owner, elem_type) = match self.mutex_receiver(receiver) {
            Some(found) => found,
            None => {
                return None;
            },
        };
        if !self.require_no_mutex_args(method, args, span) {
            return Some(None);
        }
        if same_text(method, "try_lock") {
            return Some(Some(self.lower_try_lock(owner, elem_type, span)));
        }
        let guard = self.typed_local(Type::mutex_guard(elem_type.clone()));
        self.assign(guard, Rvalue::MutexLock { base: owner, elem_type });
        self.register_mutex_guard(guard, owner, span);
        Some(Some(Rvalue::Move(guard)))
    }
}

} // verus!
