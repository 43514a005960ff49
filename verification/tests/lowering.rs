//! Lowering of function bodies: what is rejected, and what the emitted code is.

use glyph::ast::{
    Block, CaptureMode, Expr, FieldDef, Function, Ident, Item, Literal, Module, Stmt, StructDef,
    TypeExpr,
};
use glyph::atomic::{AtomicOrdering, AtomicRmwOp, AtomicScalar};
use glyph::diag::Span;
use glyph::lower::atomics::AtomicStep;
use glyph::lower::call::CallStep;
use glyph::lower::context::LowerCtx;
use glyph::lower::methods::{BuiltinMethod, CallRoute, MethodCall, MethodStep, StaticBuiltin};
use glyph::lower::state::{FnSig, LocalState};
use glyph::lower::values::{LoweredValue, Step};
use glyph::mir::{
    BorrowKind, BorrowedClosureCapture, CaptureTransfer, ClosureCapture, LocalId, MirInst,
    MirValue, Rvalue,
};
use glyph::resolver::{MethodInfo, ResolvedSymbol, ResolverContext, SelfKind};
use glyph::table::NameMap;
use glyph::thread::{canonical_thread_handle_type, canonical_unit_handle_type};
use glyph::thread_safety::IdentitySpaces;
use glyph::types::{BorrowedCallableKind, Mutability, StructType, Type};
use glyph::validation::validate_map_usage;

/// What the bodies under test are lowered against.
struct Program {
    resolver: ResolverContext,
    module: Module,
    sigs: NameMap<FnSig>,
}

impl Program {
    fn new() -> Program {
        Program {
            resolver: ResolverContext::default(),
            module: Module { items: Vec::new() },
            sigs: NameMap::new(),
        }
    }

    fn with_std() -> Program {
        let mut program = Program::new();
        for (name, module) in [
            ("Arc", "std/sync"),
            ("Mutex", "std/sync"),
            ("MutexGuard", "std/sync"),
            ("Sender", "std/sync/spsc"),
            ("Receiver", "std/sync/spsc"),
            ("AudioOut", "std/audio"),
            ("WavWriter", "std/audio"),
        ] {
            let symbol = ResolvedSymbol::Struct(module.to_string(), name.to_string());
            program.resolver.symbols.insert(name.to_string(), symbol);
        }
        for (name, module) in [("spawn", "std/thread"), ("channel", "std/sync/spsc")] {
            let symbol = ResolvedSymbol::Function(module.to_string(), name.to_string());
            program.resolver.symbols.insert(name.to_string(), symbol);
        }
        program
    }

    fn function(&mut self, name: &str, params: Vec<Type>, ret: Option<Type>) {
        let sig = FnSig {
            params: params.into_iter().map(Some).collect(),
            ret,
            target_name: name.to_string(),
            enum_ctor: None,
        };
        self.sigs.insert(name.to_string(), sig);
    }

    fn structure(&mut self, name: &str, fields: Vec<(&str, Type)>) {
        let fields = fields.into_iter().map(|(field, ty)| (field.to_string(), ty)).collect();
        let definition = StructType { name: name.to_string(), fields };
        self.resolver.struct_types.insert(name.to_string(), definition);
    }

    fn body(&self) -> Body<'_> {
        self.named_body("main")
    }

    fn named_body(&self, name: &str) -> Body<'_> {
        let mut spaces = IdentitySpaces::new();
        Body {
            ctx: LowerCtx::new(
                &self.resolver,
                &self.module,
                &self.sigs,
                name.to_string(),
                &mut spaces,
            ),
        }
    }
}

const AT: Span = Span { start: 7, end: 9 };

fn var(name: &str) -> Expr {
    Expr::Ident(Ident(name.to_string()), AT)
}

fn number(value: i64) -> Expr {
    Expr::Lit(Literal::Int(value), AT)
}

fn flag(value: bool) -> Expr {
    Expr::Lit(Literal::Bool(value), AT)
}

fn call(name: &str, args: Vec<Expr>) -> Expr {
    Expr::Call { callee: Box::new(var(name)), args, span: AT }
}

fn method(receiver: Expr, name: &str, args: Vec<Expr>) -> Expr {
    Expr::MethodCall {
        receiver: Box::new(receiver),
        method: Ident(name.to_string()),
        args,
        span: AT,
    }
}

fn field(base: Expr, name: &str) -> Expr {
    Expr::FieldAccess { base: Box::new(base), field: Ident(name.to_string()), span: AT }
}

/// A method call written as a call of a field.
fn field_call(base: Expr, name: &str, args: Vec<Expr>) -> Expr {
    Expr::Call { callee: Box::new(field(base, name)), args, span: AT }
}

fn reference(expr: Expr, mutability: Mutability) -> Expr {
    Expr::Ref { expr: Box::new(expr), mutability, span: AT }
}

fn shared(inner: Type) -> Type {
    Type::Shared(Box::new(inner))
}

fn borrowed(inner: Type) -> Type {
    Type::Ref(Box::new(inner), Mutability::Immutable)
}

fn atomic() -> Type {
    Type::Atomic(AtomicScalar::I32)
}

fn fn_once(params: Vec<Type>, ret: Type) -> Type {
    Type::Function { params, ret: Box::new(ret) }
}

fn callback(kind: BorrowedCallableKind, params: Vec<Type>, ret: Type) -> Type {
    Type::BorrowedFunction { kind, params, ret: Box::new(ret) }
}

/// A function body under construction. It lowers plain expressions itself and
/// asks the context for everything else.
struct Body<'a> {
    ctx: LowerCtx<'a>,
}

impl<'a> Body<'a> {
    fn local(&self, name: &str) -> LocalId {
        self.ctx.bound_local(name).unwrap()
    }

    fn type_of(&self, local: LocalId) -> Option<Type> {
        self.ctx.local_ty(local).cloned()
    }

    fn rvalue_type(&self, value: &Rvalue) -> Option<Type> {
        match value {
            Rvalue::ConstInt(_) => Some(Type::I32),
            Rvalue::ConstBool(_) => Some(Type::Bool),
            Rvalue::Move(local) => self.type_of(*local),
            Rvalue::Deref { elem_type, .. } => Some(elem_type.clone()),
            Rvalue::Ref { base, mutability } => {
                self.type_of(*base).map(|ty| Type::Ref(Box::new(ty), *mutability))
            }
            Rvalue::Call { name, .. } => self.ctx.fn_sigs.get(name).and_then(|sig| sig.ret.clone()),
            Rvalue::FunctionRef { signature, .. }
            | Rvalue::MakeClosure { signature, .. }
            | Rvalue::MakeBorrowedClosure { signature, .. } => Some(signature.clone()),
            Rvalue::SharedNew { elem_type, .. } => Some(shared(elem_type.clone())),
            Rvalue::OwnNew { elem_type, .. } => Some(Type::Own(Box::new(elem_type.clone()))),
            Rvalue::StructLit { struct_name, .. } => Some(Type::Named(struct_name.clone())),
            Rvalue::CallIndirect { signature, .. }
            | Rvalue::CallIndirectShared { signature, .. }
            | Rvalue::CallIndirectMut { signature, .. } => match signature {
                Type::Function { ret, .. } => Some((**ret).clone()),
                Type::BorrowedFunction { ret, .. } => Some((**ret).clone()),
                _ => None,
            },
            Rvalue::AtomicNew { scalar, .. } => Some(Type::Atomic(*scalar)),
            Rvalue::AtomicLoad { .. } | Rvalue::AtomicRmw { .. } => Some(Type::I32),
            _ => None,
        }
    }

    /// The operand that an rvalue leaves behind.
    fn operand(&mut self, value: Rvalue) -> LoweredValue {
        match value {
            Rvalue::Move(local) => {
                LoweredValue { value: MirValue::Local(local), ty: self.type_of(local) }
            }
            Rvalue::ConstInt(number) => {
                LoweredValue { value: MirValue::Int(number), ty: Some(Type::I32) }
            }
            Rvalue::ConstBool(flag) => {
                LoweredValue { value: MirValue::Bool(flag), ty: Some(Type::Bool) }
            }
            other => {
                let ty = self.rvalue_type(&other);
                let local = self.ctx.fresh_local(None);
                if let Some(ty) = &ty {
                    self.ctx.set_type(local, ty.clone());
                }
                self.ctx.push_inst(MirInst::Assign { local, value: other });
                LoweredValue { value: MirValue::Local(local), ty }
            }
        }
    }

    fn value(&mut self, expr: &Expr, expected: Option<&Type>) -> Option<LoweredValue> {
        if let Expr::Ident(name, span) = expr {
            if let Some(local) = self.ctx.bound_local(&name.0) {
                if !self.ctx.check_local_available(local, Some(*span)) {
                    return None;
                }
                return Some(LoweredValue {
                    value: MirValue::Local(local),
                    ty: self.type_of(local),
                });
            }
        }
        let rvalue = self.rvalue(expr, expected)?;
        Some(self.operand(rvalue))
    }

    fn rvalue(&mut self, expr: &Expr, expected: Option<&Type>) -> Option<Rvalue> {
        match expr {
            Expr::Lit(Literal::Int(value), _) => Some(Rvalue::ConstInt(*value)),
            Expr::Lit(Literal::Bool(value), _) => Some(Rvalue::ConstBool(*value)),
            Expr::Ident(name, span) => match self.ctx.bound_local(&name.0) {
                Some(local) => {
                    if !self.ctx.consume_local(local, Some(*span)) {
                        return None;
                    }
                    Some(Rvalue::Move(local))
                }
                None => {
                    let sig = self.ctx.fn_sigs.get(&name.0)?;
                    let params = sig.params.iter().map(|ty| ty.clone().unwrap()).collect();
                    let ret = sig.ret.clone().unwrap_or(Type::Void);
                    Some(Rvalue::FunctionRef {
                        name: name.0.clone(),
                        signature: fn_once(params, ret),
                    })
                }
            },
            Expr::Ref { expr, mutability, span } => {
                let base = match &**expr {
                    Expr::Ident(name, _) => self.local(&name.0),
                    _ => unreachable!(),
                };
                let kind = match mutability {
                    Mutability::Mutable => BorrowKind::Mutable,
                    Mutability::Immutable => BorrowKind::Shared,
                };
                self.ctx.validate_new_lexical_borrow(base, kind, *span);
                Some(Rvalue::Ref { base, mutability: *mutability })
            }
            Expr::Call { callee, args, span } => self.call(callee, args, *span, expected),
            Expr::MethodCall { receiver, method, args, span } => {
                let step = self.ctx.lower_method_call(receiver, method, args, *span);
                self.method(step, receiver, &method.0, args, *span)
            }
            _ => unreachable!(),
        }
    }

    fn arguments(&mut self, mut step: CallStep, args: &Vec<Expr>) -> Option<Rvalue> {
        loop {
            match step {
                CallStep::Done(value) => return value,
                CallStep::Argument(frame) => {
                    let argument = &args[frame.supplied];
                    let value = self.value(argument, None);
                    step = self.ctx.supply_argument(frame, argument, value);
                }
            }
        }
    }

    fn step(&mut self, step: &Step, args: &Vec<Expr>) -> Result<Option<LoweredValue>, Option<Rvalue>> {
        match step {
            Step::Done(value) => Err(value.clone()),
            Step::Wants { index, expected } => Ok(self.value(&args[*index], expected.as_ref())),
        }
    }

    fn call(
        &mut self,
        callee: &Expr,
        args: &Vec<Expr>,
        span: Span,
        expected: Option<&Type>,
    ) -> Option<Rvalue> {
        let mut route = self.ctx.lower_call(callee, args, span, expected);
        loop {
            let outcome = match &route {
                CallRoute::Step(_) => break,
                CallRoute::Static(builtin) => Some(self.builtin(*builtin, args, span, expected)),
                CallRoute::Method(step) => match callee {
                    Expr::FieldAccess { base, field, .. } => {
                        self.perform(step, base, &field.0, args, span)
                    }
                    _ => unreachable!(),
                },
            };
            route = self.ctx.resume_call(route, callee, args, span, expected, outcome);
        }
        match route {
            CallRoute::Step(step) => self.arguments(step, args),
            _ => unreachable!(),
        }
    }

    fn builtin(
        &mut self,
        builtin: StaticBuiltin,
        args: &Vec<Expr>,
        span: Span,
        expected: Option<&Type>,
    ) -> Option<Rvalue> {
        match builtin {
            StaticBuiltin::ArcNew => {
                let step = self.ctx.begin_arc_new(args, span);
                match self.step(&step, args) {
                    Ok(value) => self.ctx.lower_arc_new(value, span),
                    Err(value) => value,
                }
            }
            StaticBuiltin::MutexNew => {
                let step = self.ctx.begin_mutex_new(args, span);
                match self.step(&step, args) {
                    Ok(value) => self.ctx.lower_mutex_new(value, span),
                    Err(value) => value,
                }
            }
            StaticBuiltin::Spawn => {
                let step = self.ctx.begin_thread_spawn(args, span);
                match self.step(&step, args) {
                    Ok(value) => self.ctx.lower_thread_spawn(value, span),
                    Err(value) => value,
                }
            }
            StaticBuiltin::Channel => {
                let step = self.ctx.begin_channel(args, span, expected);
                match self.step(&step, args) {
                    Ok(value) => self.ctx.lower_channel(args, value, span, expected, "pair"),
                    Err(value) => value,
                }
            }
            StaticBuiltin::AtomicNew(scalar) => {
                let step = self.ctx.begin_atomic_constructor(scalar, args, span);
                match self.step(&step, args) {
                    Ok(value) => Some(self.ctx.lower_atomic_constructor(scalar, value?.value)),
                    Err(value) => value,
                }
            }
            StaticBuiltin::SharedNew => {
                let lowered = self.value(&args[0], None)?;
                Some(Rvalue::SharedNew { value: lowered.value, elem_type: lowered.ty? })
            }
            StaticBuiltin::OwnNew => {
                let lowered = self.value(&args[0], None)?;
                Some(Rvalue::OwnNew { value: lowered.value, elem_type: lowered.ty? })
            }
            _ => unreachable!(),
        }
    }

    fn method(
        &mut self,
        mut step: MethodStep,
        receiver: &Expr,
        name: &str,
        args: &Vec<Expr>,
        span: Span,
    ) -> Option<Rvalue> {
        loop {
            match step {
                MethodStep::Done(value) => return value,
                MethodStep::Receiver(call) => return self.receive(call, receiver, args, span),
                other => {
                    let outcome = self.perform(&other, receiver, name, args, span);
                    step = self.ctx.resume_method(other, receiver, name, args, span, outcome);
                }
            }
        }
    }

    fn receive(
        &mut self,
        call: MethodCall,
        receiver: &Expr,
        args: &Vec<Expr>,
        span: Span,
    ) -> Option<Rvalue> {
        let step = match (call.wants_reference(), receiver) {
            (Some(mutability), Expr::Ident(owner, _)) => {
                let base = self.local(&owner.0);
                let address = Rvalue::Ref { base, mutability };
                self.ctx.supply_receiver_reference(call, mutability, Some(address), args, span)
            }
            _ => {
                let value = self.value(receiver, None);
                self.ctx.supply_receiver(call, value, args, span)
            }
        };
        self.arguments(step, args)
    }

    fn atomic_values(&mut self, step: AtomicStep, args: &Vec<Expr>) -> Option<Rvalue> {
        match step {
            AtomicStep::WantsValues { atomic, scalar, method } => {
                let mut values = Vec::new();
                for arg in args {
                    values.push(self.value(arg, None)?.value);
                }
                Some(self.ctx.lower_atomic_method(atomic, scalar, method, &values))
            }
            _ => None,
        }
    }

    /// The address of a field, and its type.
    fn field_address(&self, expr: &Expr) -> Option<(Rvalue, Option<Type>)> {
        let (owner, field) = match expr {
            Expr::FieldAccess { base, field, .. } => match &**base {
                Expr::Ident(owner, _) => (self.local(&owner.0), &field.0),
                _ => return None,
            },
            _ => return None,
        };
        let name = match self.type_of(owner) {
            Some(Type::Named(name)) => name,
            _ => return None,
        };
        let fields = &self.ctx.resolver.struct_types.get(&name)?.fields;
        let index = fields.iter().position(|(name, _)| name == field)?;
        let address = Rvalue::FieldRef {
            base: owner,
            field_name: field.clone(),
            field_index: index as u32,
            mutability: Mutability::Immutable,
        };
        Some((address, Some(borrowed(fields[index].1.clone()))))
    }

    /// What a step of a method call gives.
    fn perform(
        &mut self,
        step: &MethodStep,
        receiver: &Expr,
        name: &str,
        args: &Vec<Expr>,
        span: Span,
    ) -> Option<Option<Rvalue>> {
        match step {
            MethodStep::ThreadHandle { handle_type, detach } => {
                let value = self.value(receiver, Some(handle_type));
                self.ctx.lower_thread_method(handle_type.clone(), *detach, value, span)
            }
            MethodStep::Item { sender, item } => {
                let value = self.value(&args[0], Some(item));
                Some(self.ctx.lower_try_send(*sender, item.clone(), value, span))
            }
            MethodStep::AtomicReference => {
                let address = self.field_address(receiver);
                let step = self.ctx.supply_atomic_reference(address, name, args, span);
                Some(self.atomic_values(step, args))
            }
            MethodStep::AtomicValues { atomic, scalar, method } => {
                let step = AtomicStep::WantsValues {
                    atomic: *atomic,
                    scalar: *scalar,
                    method: *method,
                };
                Some(self.atomic_values(step, args))
            }
            MethodStep::Builtins { tries, .. } => {
                if let (BuiltinMethod::SharedClone, Expr::Ident(owner, _)) = (tries[0], receiver) {
                    let base = self.local(&owner.0);
                    if let Some(Type::Shared(inner)) = self.type_of(base) {
                        return Some(Some(Rvalue::SharedClone { base, elem_type: *inner }));
                    }
                }
                Some(None)
            }
            MethodStep::Done(_) | MethodStep::Receiver(_) => None,
        }
    }

    fn bind(&mut self, name: &str, ty: Option<Type>, value: Rvalue) -> LocalId {
        let ty = ty.or_else(|| self.rvalue_type(&value));
        let local = self.ctx.fresh_local(Some(name));
        if let Some(ty) = ty {
            self.ctx.set_type(local, ty);
        }
        self.ctx.push_inst(MirInst::Assign { local, value });
        self.ctx.bind_name(name, local);
        local
    }

    fn bind_typed(&mut self, name: &str, ty: Type, expr: Expr) -> Option<LocalId> {
        let value = self.rvalue(&expr, Some(&ty))?;
        Some(self.bind(name, Some(ty), value))
    }

    fn bind_to(&mut self, name: &str, expr: Expr) -> Option<LocalId> {
        let value = self.rvalue(&expr, None)?;
        Some(self.bind(name, None, value))
    }

    /// A mutable local without a value.
    fn declare(&mut self, name: &str, ty: Type) -> LocalId {
        let local = self.ctx.fresh_local(Some(name));
        self.ctx.set_type(local, ty);
        self.ctx.locals[local.0 as usize].mutable = true;
        self.ctx.bind_name(name, local);
        local
    }

    /// A local with a value that needs no expression.
    fn given(&mut self, name: &str, ty: Type) -> LocalId {
        let local = self.declare(name, ty);
        self.ctx.set_state(local, LocalState::Initialized);
        local
    }

    /// An owned closure over locals.
    fn closure(&mut self, captures: &[&str], signature: Type) -> Rvalue {
        let mut list = Vec::new();
        for name in captures {
            let local = self.local(name);
            list.push(ClosureCapture {
                name: name.to_string(),
                local,
                ty: self.type_of(local).unwrap(),
                transfer: CaptureTransfer::Move,
            });
        }
        Rvalue::MakeClosure {
            function: "main::__glyph_closure_0".to_string(),
            signature,
            captures: list,
        }
    }

    /// A borrowing closure over one local.
    fn lending_closure(&mut self, owner: &str, borrow: BorrowKind, signature: Type) -> Rvalue {
        let local = self.local(owner);
        self.ctx.validate_new_lexical_borrow(local, borrow, AT);
        Rvalue::MakeBorrowedClosure {
            function: "main::__glyph_closure_0".to_string(),
            signature,
            captures: vec![BorrowedClosureCapture {
                name: owner.to_string(),
                local,
                ty: self.type_of(local).unwrap(),
                borrow,
            }],
        }
    }

    fn messages(&self) -> Vec<String> {
        self.ctx.diagnostics.iter().map(|diagnostic| diagnostic.message.clone()).collect()
    }

    fn reports(&self, parts: &[&str]) -> bool {
        self.messages().iter().any(|message| parts.iter().all(|part| message.contains(part)))
    }

    fn insts(&self) -> Vec<MirInst> {
        self.ctx.blocks.iter().flat_map(|block| block.insts.iter().cloned()).collect()
    }

    fn rvalues(&self) -> Vec<Rvalue> {
        let mut values = Vec::new();
        for inst in self.insts() {
            if let MirInst::Assign { value, .. } = inst {
                values.push(value);
            }
        }
        values
    }

    fn has_local_of(&self, ty: &Type) -> bool {
        self.ctx.locals.iter().any(|local| local.ty.as_ref() == Some(ty))
    }
}

#[test]
fn canonical_arc_new_clone_and_borrow_lower_to_owned_mir() {
    let mut program = Program::with_std();
    program.function("observe", vec![Type::I32], Some(Type::I32));
    let mut body = program.body();
    body.bind_to("original", call("Arc::new", vec![number(42)]));
    body.bind_to("cloned", method(var("original"), "clone", vec![]));
    let view = body.bind_to("view", method(var("cloned"), "borrow", vec![])).unwrap();
    body.bind("seen", None, Rvalue::Deref { base: view, elem_type: Type::I32 });
    body.bind_to("observed", call("observe", vec![var("seen")]));

    assert!(body.messages().is_empty(), "{:?}", body.messages());
    assert!(body.rvalues().iter().any(|value| matches!(value, Rvalue::ArcNew { .. })));
    assert!(body.rvalues().iter().any(|value| matches!(value, Rvalue::ArcClone { .. })));
    assert!(body.rvalues().iter().any(|value| matches!(value, Rvalue::ArcBorrow { .. })));
    assert!(body.has_local_of(&Type::arc(Type::I32)));
}

#[test]
fn same_named_user_arc_never_acquires_compiler_intrinsics() {
    let mut program = Program::new();
    program.structure("Arc", vec![("value", Type::Param("T".to_string()))]);
    let own = ResolvedSymbol::Struct("main".to_string(), "Arc".to_string());
    program.resolver.symbols.insert("Arc".to_string(), own);
    let mut body = program.body();
    body.bind_to("value", call("Arc::new", vec![number(42)]));

    assert!(!body.rvalues().iter().any(|value| matches!(
        value,
        Rvalue::ArcNew { .. } | Rvalue::ArcClone { .. } | Rvalue::ArcBorrow { .. }
    )));
    assert!(body.reports(&["unknown function 'Arc::new'"]), "{:?}", body.messages());
}

#[test]
fn moving_arc_consumes_one_owner_but_explicit_clone_does_not() {
    let program = Program::with_std();
    let mut moved = program.body();
    moved.bind_to("original", call("Arc::new", vec![number(1)]));
    moved.bind_to("transferred", var("original"));
    moved.bind_to("invalid", method(var("original"), "clone", vec![]));
    assert!(moved.reports(&["use of moved value `original`"]), "{:?}", moved.messages());

    let mut cloned = program.body();
    cloned.bind_to("original", call("Arc::new", vec![number(1)]));
    cloned.bind_to("duplicate", method(var("original"), "clone", vec![]));
    cloned.bind_to("view", method(var("original"), "borrow", vec![]));
    assert!(cloned.messages().is_empty(), "{:?}", cloned.messages());
}

#[test]
fn arc_rejects_mutable_access_and_borrowed_payloads() {
    let program = Program::with_std();
    let mut mutable = program.body();
    mutable.bind_to("value", call("Arc::new", vec![number(1)]));
    mutable.bind_to("invalid", method(var("value"), "borrow_mut", vec![]));
    assert!(mutable.reports(&["provides immutable access only"]), "{:?}", mutable.messages());

    let mut payload = program.body();
    payload.bind_to("local", number(1));
    let argument = reference(var("local"), Mutability::Immutable);
    payload.bind_to("invalid", call("Arc::new", vec![argument]));
    assert!(payload.reports(&["cannot own a borrowed reference"]), "{:?}", payload.messages());
}

#[test]
fn spawn_rejects_arc_of_shared_with_a_nested_constraint_trace() {
    let program = Program::with_std();
    let mut body = program.body();
    body.bind_to("state", call("Arc::new", vec![call("Shared::new", vec![number(7)])]));
    let task = body.closure(&["state"], fn_once(vec![], Type::Void));
    body.bind("task", None, task);
    body.bind_to("outcome", call("spawn", vec![var("task")]));
    assert!(
        body.reports(&["spawn task.capture", "`state`", "Arc<T>", "Shared<T>"]),
        "{:?}",
        body.messages()
    );
}

#[test]
fn spawn_rejects_arc_of_raw_pointer_and_nested_non_send_fields() {
    let program = Program::with_std();
    let mut raw = program.body();
    raw.given("raw", Type::RawPtr(Box::new(Type::I32)));
    raw.bind_to("state", call("Arc::new", vec![var("raw")]));
    let task = raw.closure(&["state"], fn_once(vec![], Type::Void));
    raw.bind("task", None, task);
    raw.bind_to("outcome", call("spawn", vec![var("task")]));
    assert!(
        raw.reports(&["spawn task.capture", "Arc<T>", "raw pointers"]),
        "{:?}",
        raw.messages()
    );

    let mut program = Program::with_std();
    program.structure("State", vec![("local", shared(Type::I32))]);
    let mut nested = program.body();
    nested.given("part", Type::Named("State".to_string()));
    nested.bind_to("state", call("Arc::new", vec![var("part")]));
    let task = nested.closure(&["state"], fn_once(vec![], Type::Void));
    nested.bind("task", None, task);
    nested.bind_to("outcome", call("spawn", vec![var("task")]));
    assert!(
        nested.reports(&["spawn task.capture", "`state`.value.local", "Arc<T>", "Shared<T>"]),
        "{:?}",
        nested.messages()
    );
}

#[test]
fn arc_owner_cannot_move_reassign_or_drop_while_a_lexical_loan_is_live() {
    let program = Program::with_std();
    let atomic_arc = || call("Arc::new", vec![call("AtomicI32::new", vec![number(7)])]);

    let mut moved = program.body();
    moved.bind_to("owner", atomic_arc());
    moved.bind_to("view", method(var("owner"), "borrow", vec![]));
    moved.bind_to("moved", var("owner"));
    assert!(
        moved.reports(&[
            "cannot move Arc owner `owner` while an Arc::borrow() reference is active"
        ]),
        "{:?}",
        moved.messages()
    );

    let mut reassigned = program.body();
    reassigned.bind_to("owner", atomic_arc());
    reassigned.bind_to("view", method(var("owner"), "borrow", vec![]));
    let fresh = reassigned.rvalue(&atomic_arc(), None).unwrap();
    let owner = reassigned.local("owner");
    reassigned.ctx.push_inst(MirInst::Assign { local: owner, value: fresh });
    assert!(
        reassigned.reports(&[
            "cannot reassign Arc owner `owner` while an Arc::borrow() reference is active"
        ]),
        "{:?}",
        reassigned.messages()
    );

    let mut escaped = program.body();
    let view = escaped.declare("view", borrowed(atomic()));
    escaped.ctx.enter_scope();
    escaped.bind_to("owner", atomic_arc());
    let result = escaped.rvalue(&method(var("owner"), "borrow", vec![]), None).unwrap();
    escaped.ctx.push_inst(MirInst::Assign { local: view, value: result });
    escaped.ctx.exit_scope();
    assert!(
        escaped.reports(&[
            "Arc::borrow() reference cannot escape the lexical scope where it was created"
        ]),
        "{:?}",
        escaped.messages()
    );
}

#[test]
fn arc_loan_ends_at_nested_scope_exit_before_owner_move() {
    let program = Program::with_std();
    let mut body = program.body();
    body.bind_to("owner", call("Arc::new", vec![call("AtomicI32::new", vec![number(7)])]));
    body.ctx.enter_scope();
    body.bind_to("view", method(var("owner"), "borrow", vec![]));
    body.bind_to("observed", method(var("view"), "load", vec![]));
    body.ctx.exit_scope();
    body.ctx.enter_scope();
    let ignored = body.rvalue(&method(var("owner"), "borrow", vec![]), None).unwrap();
    body.operand(ignored);
    body.ctx.exit_scope();
    body.bind_to("moved", var("owner"));
    assert!(body.messages().is_empty(), "{:?}", body.messages());
}

#[test]
fn arc_borrows_cannot_be_stored_in_aggregates_containers_or_closures() {
    let program = Program::with_std();
    let lend = |body: &mut Body| {
        body.bind_to("owner", call("Arc::new", vec![call("AtomicI32::new", vec![number(7)])]));
        MirValue::Local(body.bind_to("view", method(var("owner"), "borrow", vec![])).unwrap())
    };

    let mut aggregate = program.body();
    let view = lend(&mut aggregate);
    for (name, value) in [
        (
            "holder",
            Rvalue::StructLit {
                struct_name: "Holder".to_string(),
                field_values: vec![("value".to_string(), view)],
            },
        ),
        (
            "tuple",
            Rvalue::StructLit {
                struct_name: "__Tuple1".to_string(),
                field_values: vec![("0".to_string(), view)],
            },
        ),
        ("array", Rvalue::ArrayLit { elem_type: borrowed(atomic()), elements: vec![view] }),
        (
            "tagged",
            Rvalue::EnumConstruct {
                enum_name: "MaybeRef".to_string(),
                variant_index: 0,
                payload: Some(view),
            },
        ),
    ] {
        aggregate.bind(name, None, value);
    }
    let stored = aggregate
        .messages()
        .iter()
        .filter(|message| message.contains("Arc::borrow() reference cannot be stored"))
        .count();
    assert!(stored >= 4, "{:?}", aggregate.messages());

    let mut containers = program.body();
    let view = lend(&mut containers);
    let values = containers.given("values", Type::App {
        base: "Vec".to_string(),
        args: vec![borrowed(atomic())],
    });
    let indexed = containers.given("indexed", Type::App {
        base: "Map".to_string(),
        args: vec![Type::I32, borrowed(atomic())],
    });
    let push = Rvalue::VecPush { vec: values, elem_type: borrowed(atomic()), value: view };
    containers.bind("pushed", None, push);
    let add = Rvalue::MapAdd {
        map: indexed,
        key_type: Type::I32,
        key: MirValue::Int(1),
        value_type: borrowed(atomic()),
        value: view,
    };
    containers.bind("added", None, add);
    let own = Rvalue::OwnNew { value: view, elem_type: borrowed(atomic()) };
    containers.bind("boxed", None, own);
    let cell = Rvalue::SharedNew { value: view, elem_type: borrowed(atomic()) };
    containers.bind("shared", None, cell);
    let task = containers.closure(&["view"], fn_once(vec![], Type::Void));
    containers.bind("callback", None, task);
    for expected in [
        "stored in a Vec",
        "stored in a Map",
        "stored in an Own allocation",
        "stored in a Shared allocation",
        "cannot be captured by a closure",
    ] {
        assert!(containers.reports(&[expected]), "{expected}: {:?}", containers.messages());
    }

    let mut captured = program.body();
    lend(&mut captured);
    let task = captured.closure(&["owner"], fn_once(vec![], Type::Void));
    captured.bind("callback", None, task);
    assert!(
        captured.reports(&[
            "cannot move into a closure Arc owner `owner` while an Arc::borrow() reference is active"
        ]),
        "{:?}",
        captured.messages()
    );
}

#[test]
fn canonical_mutex_lock_try_lock_and_guard_borrow_lower_to_typed_mir() {
    let program = Program::with_std();
    let mut body = program.body();
    body.bind_to("state", call("Mutex::new", vec![call("AtomicI32::new", vec![number(41)])]));
    body.ctx.enter_scope();
    body.bind_to("guard", method(var("state"), "lock", vec![]));
    body.bind_to("value", method(var("guard"), "borrow_mut", vec![]));
    body.bind_to("previous", method(var("value"), "fetch_add", vec![number(1)]));
    body.ctx.exit_scope();
    let attempted = body.rvalue(&method(var("state"), "try_lock", vec![]), None).unwrap();
    let attempted = body.operand(attempted);
    let base = match attempted.value {
        MirValue::Local(local) => local,
        _ => unreachable!(),
    };
    body.ctx.enter_scope();
    let guard_type = Type::mutex_guard(atomic());
    let payload = Rvalue::EnumPayload { base, variant_index: 1, payload_type: guard_type.clone() };
    body.bind("guard", Some(guard_type), payload);
    body.bind_to("value", method(var("guard"), "borrow", vec![]));
    body.bind_to("observed", method(var("value"), "load", vec![]));
    body.ctx.exit_scope();

    assert!(body.messages().is_empty(), "{:?}", body.messages());
    assert!(body.rvalues().iter().any(|value| matches!(value, Rvalue::MutexNew { .. })));
    assert!(body.rvalues().iter().any(|value| matches!(value, Rvalue::MutexLock { .. })));
    assert!(body.rvalues().iter().any(|value| matches!(value, Rvalue::MutexTryLock { .. })));
    assert!(body.rvalues().iter().any(|value| matches!(value, Rvalue::MutexGuardBorrow { .. })));
    assert!(body.has_local_of(&Type::mutex(atomic())));
}

#[test]
fn same_named_user_mutex_never_selects_intrinsic_lowering() {
    let mut program = Program::new();
    program.structure("Mutex", vec![("value", Type::Param("T".to_string()))]);
    let mut body = program.body();
    body.bind_to("state", call("Mutex::new", vec![number(1)]));
    assert!(!body.rvalues().iter().any(|value| matches!(value, Rvalue::MutexNew { .. })));
    assert!(body.reports(&["unknown function 'Mutex::new'"]), "{:?}", body.messages());
}

#[test]
fn guards_and_guard_borrows_cannot_enter_storage() {
    let program = Program::with_std();
    for borrow in [false, true] {
        let mut body = program.body();
        body.bind_to("state", call("Mutex::new", vec![number(1)]));
        let mut stored = body.bind_to("guard", method(var("state"), "lock", vec![])).unwrap();
        if borrow {
            stored = body.bind_to("value", method(var("guard"), "borrow_mut", vec![])).unwrap();
        }
        body.bind(
            "tuple",
            None,
            Rvalue::StructLit {
                struct_name: "__Tuple2".to_string(),
                field_values: vec![
                    ("0".to_string(), MirValue::Local(stored)),
                    ("1".to_string(), MirValue::Int(1)),
                ],
            },
        );
        assert!(body.reports(&["cannot be stored in an aggregate"]), "{:?}", body.messages());
    }

    let mut captured = program.body();
    captured.bind_to("state", call("Mutex::new", vec![number(1)]));
    captured.bind_to("guard", method(var("state"), "lock", vec![]));
    let task = captured.closure(&["guard"], fn_once(vec![], Type::Void));
    captured.bind("task", None, task);
    assert!(captured.reports(&["cannot be captured by a closure"]), "{:?}", captured.messages());

    let mut returned = program.body();
    returned.bind_to("state", call("Mutex::new", vec![number(1)]));
    let guard = returned.bind_to("guard", method(var("state"), "lock", vec![])).unwrap();
    returned.ctx.reject_mutex_guard_return(Some(&MirValue::Local(guard)), AT);
    assert_eq!(
        returned.messages(),
        vec!["MutexGuard and references borrowed from it cannot escape through return"]
    );
}

#[test]
fn live_guard_blocks_owner_move_and_guard_is_move_only() {
    let program = Program::with_std();
    let mut owner = program.body();
    owner.bind_to("state", call("Mutex::new", vec![number(1)]));
    owner.bind_to("guard", method(var("state"), "lock", vec![]));
    owner.bind_to("moved", var("state"));
    assert!(
        owner.reports(&["cannot move Mutex owner `state` while guard"]),
        "{:?}",
        owner.messages()
    );

    let mut guard = program.body();
    guard.bind_to("state", call("Mutex::new", vec![number(1)]));
    guard.bind_to("guard", method(var("state"), "lock", vec![]));
    guard.bind_to("moved", var("guard"));
    guard.bind_to("invalid", method(var("guard"), "borrow_mut", vec![]));
    assert!(guard.reports(&["use of moved guard `guard`"]), "{:?}", guard.messages());
}

#[test]
fn mutex_thread_safety_depends_on_send_payload_and_guard_is_never_send() {
    let program = Program::with_std();
    let mut payload = program.body();
    payload.bind_to("state", call("Mutex::new", vec![call("Shared::new", vec![number(1)])]));
    let task = payload.closure(&["state"], fn_once(vec![], Type::Void));
    payload.bind("task", None, task);
    payload.bind_to("result", call("spawn", vec![var("task")]));
    assert!(
        payload.reports(&["std::sync::Mutex", "requires `T: Send`"]),
        "{:?}",
        payload.messages()
    );

    let mut guard = program.body();
    guard.bind_to("state", call("Mutex::new", vec![number(1)]));
    guard.bind_to("guard", method(var("state"), "lock", vec![]));
    let task = guard.closure(&["guard"], fn_once(vec![], Type::Void));
    guard.bind("task", None, task);
    guard.bind_to("result", call("spawn", vec![var("task")]));
    assert!(
        guard.reports(&["mutex guards are lexical"]) || guard.reports(&["cannot be captured"]),
        "{:?}",
        guard.messages()
    );
}

#[test]
fn guard_drop_is_emitted_on_return_try_break_and_continue_edges() {
    let program = Program::with_std();

    // An early return and the failing edge of `?` both leave the function.
    for name in ["early_return", "early_try"] {
        let mut body = program.named_body(name);
        body.bind_to("state", call("Mutex::new", vec![number(1)]));
        let guard = body.bind_to("guard", method(var("state"), "lock", vec![])).unwrap();
        body.ctx.drop_all_active_locals();
        body.ctx.push_inst(MirInst::Return(Some(MirValue::Int(7))));
        assert!(body.messages().is_empty(), "{name}: {:?}", body.messages());
        let insts = &body.ctx.blocks[0].insts;
        let dropped = insts.iter().position(|inst| *inst == MirInst::Drop(guard)).unwrap();
        let released = insts.iter().position(|inst| {
            matches!(inst, MirInst::Drop(local) if Some(*local) == body.ctx.bound_local("state"))
        });
        assert!(dropped < released.unwrap(), "a guard is dropped before its mutex");
        assert_eq!(insts.last(), Some(&MirInst::Return(Some(MirValue::Int(7)))));
    }

    // `break` and `continue` leave the scopes of the loop body.
    let mut body = program.named_body("loop_edges");
    body.bind_to("state", call("Mutex::new", vec![number(1)]));
    for leaves in [true, false] {
        let next = body.ctx.new_block();
        let exit = body.ctx.new_block();
        let inside = body.ctx.new_block();
        body.ctx.enter_loop(next, exit);
        body.ctx.switch_to(inside);
        body.ctx.enter_scope();
        let guard = body.bind_to("guard", method(var("state"), "lock", vec![])).unwrap();
        let (target, depth) = {
            let context = body.ctx.current_loop().unwrap();
            let target = if leaves { context.exit } else { context.continue_target };
            (target, context.scope_depth)
        };
        body.ctx.drop_scopes_after_depth(depth);
        body.ctx.push_inst(MirInst::Goto(target));
        body.ctx.exit_scope();
        body.ctx.exit_loop();
        body.ctx.switch_to(exit);
        let insts = &body.ctx.blocks[inside.0 as usize].insts;
        let drops = insts.iter().filter(|inst| **inst == MirInst::Drop(guard)).count();
        assert_eq!(drops, 1, "{insts:?}");
        assert_eq!(insts.last(), Some(&MirInst::Goto(target)));
    }
    assert!(body.messages().is_empty(), "{:?}", body.messages());
}

#[test]
fn pending_try_lock_option_keeps_the_mutex_exclusively_loaned() {
    let program = Program::with_std();
    let mut body = program.body();
    body.bind_to("state", call("Mutex::new", vec![number(1)]));
    body.bind_to("attempted", method(var("state"), "try_lock", vec![]));
    body.bind_to("moved", var("state"));
    assert!(body.reports(&["cannot move Mutex owner `state`"]), "{:?}", body.messages());
}

#[test]
fn canonical_channel_and_result_methods_lower_to_specialized_mir() {
    let program = Program::with_std();
    let mut body = program.body();
    body.declare("receiver", Type::spsc_receiver(Type::I32));
    let output = reference(var("receiver"), Mutability::Mutable);
    body.bind_typed(
        "sender",
        Type::spsc_sender(Type::I32),
        call("channel", vec![number(2), output]),
    );
    body.bind_to("sent", method(var("sender"), "try_send", vec![number(7)]));
    body.bind_to("received", method(var("receiver"), "try_recv", vec![]));

    assert!(body.messages().is_empty(), "{:?}", body.messages());
    assert!(body.rvalues().iter().any(|value| matches!(value, Rvalue::SpscChannelNew { .. })));
    assert!(body.rvalues().iter().any(|value| matches!(value, Rvalue::SpscTrySend { .. })));
    assert!(body.rvalues().iter().any(|value| matches!(value, Rvalue::SpscTryRecv { .. })));
    assert!(body.has_local_of(&Type::spsc_sender(Type::I32)));
    assert!(body.has_local_of(&Type::spsc_receiver(Type::I32)));
}

#[test]
fn one_argument_channel_supports_the_exact_endpoint_tuple_type() {
    let program = Program::with_std();
    let mut body = program.body();
    let pair = Type::Tuple(vec![Type::spsc_sender(Type::I32), Type::spsc_receiver(Type::I32)]);
    body.bind_typed("pair", pair, call("channel", vec![number(4)]));
    assert!(body.messages().is_empty(), "{:?}", body.messages());
    assert!(body.rvalues().iter().any(|value| matches!(value, Rvalue::SpscChannelNew { .. })));
    assert!(body.rvalues().iter().any(|value| matches!(value, Rvalue::StructLit { .. })));
}

#[test]
fn channel_payloads_must_be_owned_and_endpoint_clone_is_rejected() {
    let program = Program::with_std();
    let mut payload = program.body();
    payload.declare("receiver", Type::spsc_receiver(borrowed(Type::I32)));
    let output = reference(var("receiver"), Mutability::Mutable);
    payload.bind_typed(
        "sender",
        Type::spsc_sender(borrowed(Type::I32)),
        call("channel", vec![number(2), output]),
    );
    assert!(payload.reports(&["cannot carry borrowed references"]), "{:?}", payload.messages());

    let mut cloned = program.body();
    cloned.declare("receiver", Type::spsc_receiver(Type::I32));
    let output = reference(var("receiver"), Mutability::Mutable);
    cloned.bind_typed(
        "sender",
        Type::spsc_sender(Type::I32),
        call("channel", vec![number(2), output]),
    );
    cloned.bind_to("duplicate", method(var("sender"), "clone", vec![]));
    assert!(cloned.reports(&["unique and cannot be cloned"]), "{:?}", cloned.messages());
}

#[test]
fn same_named_user_sender_never_selects_the_intrinsic() {
    let mut program = Program::new();
    program.structure("Sender", vec![("value", Type::I32)]);
    let mut body = program.body();
    body.given("sender", Type::Named("Sender".to_string()));
    body.bind_to("result", method(var("sender"), "try_send", vec![number(2)]));
    assert!(!body.rvalues().iter().any(|value| matches!(value, Rvalue::SpscTrySend { .. })));
    assert!(body.reports(&["no method 'try_send'"]), "{:?}", body.messages());
}

#[test]
fn endpoints_are_send_but_not_sync_and_require_send_payloads() {
    let program = Program::with_std();
    for (item, accepted) in [(Type::I32, true), (shared(Type::I32), false)] {
        let mut body = program.body();
        body.declare("receiver", Type::spsc_receiver(item.clone()));
        let output = reference(var("receiver"), Mutability::Mutable);
        body.bind_typed(
            "sender",
            Type::spsc_sender(item),
            call("channel", vec![number(2), output]),
        );
        let task = body.closure(&["sender"], fn_once(vec![], Type::Void));
        body.bind("task", None, task);
        body.bind_to("outcome", call("spawn", vec![var("task")]));
        if accepted {
            assert!(body.messages().is_empty(), "{:?}", body.messages());
        } else {
            assert!(body.reports(&["requires `T: Send`"]), "{:?}", body.messages());
        }
    }
}

#[test]
fn canonical_spawn_lowers_only_after_resolver_identity_and_drops_unused_result() {
    let mut program = Program::with_std();
    program.function("worker", vec![], None);
    let mut body = program.body();
    let outcome = body.bind_to("outcome", call("spawn", vec![var("worker")])).unwrap();
    body.ctx.drop_all_active_locals();
    body.ctx.push_inst(MirInst::Return(Some(MirValue::Int(0))));

    assert!(body.messages().is_empty(), "{:?}", body.messages());
    assert!(body.rvalues().iter().any(|value| matches!(value, Rvalue::ThreadSpawnUnit { .. })));
    assert!(body.has_local_of(&canonical_unit_handle_type()));
    assert!(body.insts().contains(&MirInst::Drop(outcome)));
}

#[test]
fn user_defined_spawn_and_join_handle_never_gain_thread_intrinsics() {
    let mut program = Program::new();
    program.function("worker", vec![], None);
    program.function("spawn", vec![fn_once(vec![], Type::Void)], Some(Type::I32));
    let mut body = program.body();
    body.bind_to("result", call("spawn", vec![var("worker")]));

    assert!(body.messages().is_empty(), "{:?}", body.messages());
    assert!(!body.rvalues().iter().any(|value| matches!(value, Rvalue::ThreadSpawnUnit { .. })));
    assert!(body
        .rvalues()
        .iter()
        .any(|value| matches!(value, Rvalue::Call { name, .. } if name == "spawn")));
    assert!(!body.has_local_of(&canonical_unit_handle_type()));
}

#[test]
fn spawn_consumes_callable_and_rejects_source_reuse() {
    let mut program = Program::with_std();
    program.function("worker", vec![], None);
    let mut body = program.body();
    body.bind_typed("task", fn_once(vec![], Type::Void), var("worker"));
    body.bind_to("outcome", call("spawn", vec![var("task")]));
    body.rvalue(&call("task", vec![]), None);
    assert!(body.reports(&["use of moved value `task`"]), "{:?}", body.messages());
}

#[test]
fn join_consumes_the_canonical_handle_and_second_use_is_rejected() {
    let program = Program::with_std();
    let mut body = program.body();
    body.given("handle", canonical_unit_handle_type());
    body.bind_to("joined", method(var("handle"), "join", vec![]));
    assert!(body.messages().is_empty(), "{:?}", body.messages());
    body.bind_to("detached", method(var("handle"), "detach", vec![]));
    assert!(body.reports(&["use of moved value `handle`"]), "{:?}", body.messages());
}

#[test]
fn spawn_rejects_shared_capture_with_capture_path_trace() {
    let program = Program::with_std();
    let mut body = program.body();
    body.bind_to("state", call("Shared::new", vec![number(7)]));
    let task = body.closure(&["state"], fn_once(vec![], Type::Void));
    body.bind("task", None, task);
    body.bind_to("outcome", call("spawn", vec![var("task")]));
    assert!(
        body.reports(&["spawn task.capture", "`state`", "Shared<T>", "cannot cross threads"]),
        "{:?}",
        body.messages()
    );
}

#[test]
fn audited_runtime_policy_survives_nested_user_aggregates() {
    let mut program = Program::with_std();
    let audio_out = Type::Named("AudioOut".to_string());
    let wav_writer = Type::Named("WavWriter".to_string());
    program.structure("AudioOut", vec![("handle", Type::I32)]);
    program.structure("WavWriter", vec![("handle", Type::I32)]);
    program.structure("Studio", vec![("output", audio_out), ("writer", wav_writer.clone())]);
    program.structure(
        "OfflineRender",
        vec![("writer", wav_writer), ("sample_count", Type::arc(Type::I32))],
    );
    program.structure("SharedState", vec![("value", Type::arc(shared(Type::I32)))]);

    let spawned = |name: &str, ty: &str| {
        let mut body = program.body();
        body.given(name, Type::Named(ty.to_string()));
        let task = body.closure(&[name], fn_once(vec![], Type::Void));
        body.bind("task", None, task);
        body.bind_to("outcome", call("spawn", vec![var("task")]));
        (body.messages(), body.rvalues())
    };
    let all = |message: &String, parts: &[&str]| parts.iter().all(|part| message.contains(part));

    let (messages, _) = spawned("studio", "Studio");
    assert!(
        messages.iter().any(|message| all(
            message,
            &[
                "spawn task.capture",
                "`studio`",
                ".output",
                "live audio devices are engine-thread-affine",
            ]
        )),
        "{messages:?}"
    );

    let (messages, rvalues) = spawned("render", "OfflineRender");
    assert!(messages.is_empty(), "{messages:?}");
    assert!(rvalues.iter().any(|value| matches!(value, Rvalue::ThreadSpawnUnit { .. })));

    let (messages, _) = spawned("state", "SharedState");
    assert!(
        messages
            .iter()
            .any(|message| all(message, &["`state`", ".value", "Arc<T>", "Shared<T>"])),
        "{messages:?}"
    );
}

#[test]
fn typed_spawn_and_join_specialize_from_the_callable_return() {
    let mut program = Program::with_std();
    program.function("answer", vec![], Some(Type::I32));
    let mut body = program.body();
    body.bind_to("outcome", call("spawn", vec![var("answer")]));
    body.given("handle", canonical_thread_handle_type(Type::I32));
    body.bind_to("joined", method(var("handle"), "join", vec![]));

    assert!(body.messages().is_empty(), "{:?}", body.messages());
    assert!(body.rvalues().iter().any(|value| matches!(
        value,
        Rvalue::ThreadSpawnResult { result_type: Type::I32, .. }
    )));
    assert!(body.rvalues().iter().any(|value| matches!(
        value,
        Rvalue::ThreadJoinResult { result_type: Type::I32, .. }
    )));
    assert!(body.has_local_of(&canonical_thread_handle_type(Type::I32)));
}

#[test]
fn typed_spawn_rejects_a_non_send_result_before_emitting_runtime_mir() {
    let mut program = Program::with_std();
    program.function("build_state", vec![], Some(shared(Type::I32)));
    let mut body = program.body();
    body.bind_to("outcome", call("spawn", vec![var("build_state")]));
    assert!(
        body.reports(&["spawn result", "Shared<T>", "cannot cross threads"]),
        "{:?}",
        body.messages()
    );
    assert!(!body.rvalues().iter().any(|value| matches!(value, Rvalue::ThreadSpawnResult { .. })));
}

#[test]
fn function_items_and_callable_parameters_lower_without_rewriting_direct_calls() {
    let mut program = Program::new();
    program.function("identity", vec![Type::I32], Some(Type::I32));
    let callable = fn_once(vec![Type::I32], Type::I32);
    program.function("apply", vec![callable.clone(), Type::I32], Some(Type::I32));

    let mut apply = program.named_body("apply");
    apply.given("function", callable);
    apply.given("value", Type::I32);
    apply.bind_to("result", call("function", vec![var("value")]));
    assert!(apply.messages().is_empty(), "{:?}", apply.messages());
    assert!(apply.rvalues().iter().any(|value| matches!(value, Rvalue::CallIndirect { .. })));

    let mut main = program.body();
    main.bind_to("result", call("apply", vec![var("identity"), number(42)]));
    assert!(main.messages().is_empty(), "{:?}", main.messages());
    assert!(main
        .rvalues()
        .iter()
        .any(|value| matches!(value, Rvalue::FunctionRef { name, .. } if name == "identity")));
    assert!(main
        .rvalues()
        .iter()
        .any(|value| matches!(value, Rvalue::Call { name, .. } if name == "apply")));
}

#[test]
fn callable_wrong_arity_and_argument_type_are_rejected() {
    let mut program = Program::new();
    program.function("identity", vec![Type::I32], Some(Type::I32));
    let mut arity = program.body();
    arity.bind_to("function", var("identity"));
    arity.rvalue(&call("function", vec![]), None);
    assert!(arity.reports(&["expects 1 arguments but got 0"]), "{:?}", arity.messages());

    let mut argument = program.body();
    argument.bind_to("function", var("identity"));
    argument.rvalue(&call("function", vec![flag(true)]), None);
    assert!(
        argument.reports(&["has type 'bool', expected 'i32'"]),
        "{:?}",
        argument.messages()
    );
}

#[test]
fn non_callable_and_second_fnonce_call_are_rejected() {
    let mut program = Program::new();
    program.function("answer", vec![], Some(Type::I32));
    let mut plain = program.body();
    plain.bind_to("value", number(1));
    plain.rvalue(&call("value", vec![]), None);
    assert!(plain.reports(&["is not callable"]), "{:?}", plain.messages());

    let mut twice = program.body();
    twice.bind_to("function", var("answer"));
    twice.bind_to("first", call("function", vec![]));
    twice.rvalue(&call("function", vec![]), None);
    assert!(twice.reports(&["use of moved value `function`"]), "{:?}", twice.messages());
}

#[test]
fn callable_return_type_mismatch_is_rejected() {
    let mut program = Program::new();
    program.function("predicate", vec![], Some(Type::Bool));
    let mut body = program.body();
    body.bind_to("function", var("predicate"));
    body.bind_typed("value", Type::I32, call("function", vec![]));
    assert!(
        body.reports(&["returns 'bool', but 'i32' is required"]),
        "{:?}",
        body.messages()
    );
}

#[test]
fn fn_callback_captures_shared_and_is_called_repeatedly() {
    let mut program = Program::new();
    let signature = callback(BorrowedCallableKind::Fn, vec![Type::I32], Type::I32);
    program.function("apply_twice", vec![signature.clone(), Type::I32], Some(Type::I32));

    let mut main = program.body();
    main.bind_to("base", number(1));
    let add = main.lending_closure("base", BorrowKind::Shared, signature.clone());
    main.bind("add", None, add);
    main.bind_to("result", call("apply_twice", vec![var("add"), number(20)]));
    assert!(main.messages().is_empty(), "{:?}", main.messages());
    assert!(main.rvalues().iter().any(|value| matches!(
        value,
        Rvalue::MakeBorrowedClosure { captures, .. }
            if captures.len() == 1 && captures[0].borrow == BorrowKind::Shared
    )));

    let mut apply = program.named_body("apply_twice");
    apply.given("function", signature);
    apply.given("value", Type::I32);
    apply.bind_to("first", call("function", vec![var("value")]));
    apply.bind_to("second", call("function", vec![var("value")]));
    assert!(apply.messages().is_empty(), "{:?}", apply.messages());
    let calls = apply
        .rvalues()
        .iter()
        .filter(|value| matches!(value, Rvalue::CallIndirectShared { .. }))
        .count();
    assert_eq!(calls, 2);
}

#[test]
fn fnmut_callback_captures_mutably_and_is_called_repeatedly() {
    let mut program = Program::new();
    let signature = callback(BorrowedCallableKind::FnMut, vec![], Type::I32);
    program.structure("Counter", vec![("value", Type::I32)]);
    program.function("call_twice", vec![signature.clone()], Some(Type::I32));

    let mut main = program.body();
    main.given("state", Type::Named("Counter".to_string()));
    let next = main.lending_closure("state", BorrowKind::Mutable, signature.clone());
    main.bind("next", None, next);
    main.bind_to("result", call("call_twice", vec![var("next")]));
    assert!(main.messages().is_empty(), "{:?}", main.messages());
    assert!(main.rvalues().iter().any(|value| matches!(
        value,
        Rvalue::MakeBorrowedClosure { captures, .. }
            if captures.len() == 1 && captures[0].borrow == BorrowKind::Mutable
    )));

    let mut twice = program.named_body("call_twice");
    twice.given("function", signature);
    twice.bind_to("first", call("function", vec![]));
    twice.bind_to("second", call("function", vec![]));
    assert!(twice.messages().is_empty(), "{:?}", twice.messages());
    let calls = twice
        .rvalues()
        .iter()
        .filter(|value| matches!(value, Rvalue::CallIndirectMut { .. }))
        .count();
    assert_eq!(calls, 2);
}

#[test]
fn fnmut_carriers_cannot_be_aliased_or_overlap_on_one_owner() {
    let mut program = Program::new();
    let signature = callback(BorrowedCallableKind::FnMut, vec![], Type::I32);
    program.structure("Counter", vec![("value", Type::I32)]);
    let both = vec![signature.clone(), signature.clone()];
    program.function("use_both", both, Some(Type::I32));

    let mut alias = program.body();
    alias.given("state", Type::Named("Counter".to_string()));
    let first = alias.lending_closure("state", BorrowKind::Mutable, signature.clone());
    alias.bind("callback", None, first);
    alias.bind_typed("alias", signature.clone(), var("callback"));
    assert!(alias.reports(&["FnMut", "alias"]), "{:?}", alias.messages());

    let mut overlap = program.body();
    overlap.given("state", Type::Named("Counter".to_string()));
    let first = overlap.lending_closure("state", BorrowKind::Mutable, signature.clone());
    overlap.bind("first", None, first);
    let second = overlap.lending_closure("state", BorrowKind::Mutable, signature.clone());
    overlap.bind("second", None, second);
    assert!(
        overlap.reports(&["cannot mutably borrow `state`", "exclusive loan"]),
        "{:?}",
        overlap.messages()
    );

    let mut twice = program.named_body("invalid");
    twice.given("function", signature);
    twice.bind_to("result", call("use_both", vec![var("function"), var("function")]));
    assert!(twice.reports(&["FnMut", "multiple arguments"]), "{:?}", twice.messages());
}

#[test]
fn borrowed_callbacks_hold_loans_and_cannot_enter_storage() {
    let mut program = Program::new();
    program.function("consume", vec![Type::String], None);
    let path = |name: &str| TypeExpr::Path { segments: vec![name.to_string()], span: AT };
    let field = FieldDef { name: Ident("callback".to_string()), ty: path("Callback"), span: AT };
    let holder = StructDef {
        name: Ident("Holder".to_string()),
        generic_params: Vec::new(),
        interfaces: Vec::new(),
        fields: vec![field],
        methods: Vec::new(),
        inline_impls: Vec::new(),
        span: AT,
    };
    let stored = Module { items: vec![Item::Struct(holder)] };
    let denoted = callback(BorrowedCallableKind::Fn, vec![], Type::I32);
    program.resolver.resolved_types.push((path("Callback"), denoted));
    let mut diagnostics = Vec::new();
    validate_map_usage(&stored, &program.resolver, &mut diagnostics);
    assert!(
        diagnostics.iter().any(|diagnostic| diagnostic.message.contains("borrowed callable")
            && diagnostic.message.contains("struct field")),
        "{diagnostics:?}"
    );

    let mut moved = program.body();
    moved.given("owner", Type::String);
    let signature = callback(BorrowedCallableKind::Fn, vec![], Type::Usize);
    let lent = moved.lending_closure("owner", BorrowKind::Shared, signature);
    moved.bind("callback", None, lent);
    moved.rvalue(&call("consume", vec![var("owner")]), None);
    assert!(
        moved.reports(&["cannot move `owner` while a shared loan is active"]),
        "{:?}",
        moved.messages()
    );

    let mut read = program.body();
    read.given("state", Type::Named("Counter".to_string()));
    let signature = callback(BorrowedCallableKind::FnMut, vec![], Type::I32);
    let lent = read.lending_closure("state", BorrowKind::Mutable, signature);
    read.bind("callback", None, lent);
    read.bind_to("invalid", var("state"));
    assert!(
        read.reports(&["cannot use `state` while an exclusive loan is active"]),
        "{:?}",
        read.messages()
    );

    let mut returned = program.body();
    returned.given("value", Type::I32);
    let signature = callback(BorrowedCallableKind::Fn, vec![], Type::I32);
    let lent = returned.lending_closure("value", BorrowKind::Shared, signature);
    let callable = returned.bind("callback", None, lent);
    returned.ctx.reject_lexical_loan_return(Some(&MirValue::Local(callable)), AT);
    assert_eq!(
        returned.messages(),
        vec!["a borrowed reference or callable cannot escape through return"]
    );
}

#[test]
fn shared_and_mutable_loans_conflict_in_both_orders() {
    let program = Program::new();
    let mut exclusive = program.body();
    exclusive.bind_to("value", number(1));
    exclusive.bind_to("shared", reference(var("value"), Mutability::Immutable));
    exclusive.bind_to("exclusive", reference(var("value"), Mutability::Mutable));
    assert!(
        exclusive.reports(&["cannot mutably borrow `value` while a shared loan is active"]),
        "{:?}",
        exclusive.messages()
    );

    let mut second = program.body();
    second.bind_to("value", number(1));
    second.bind_to("exclusive", reference(var("value"), Mutability::Mutable));
    second.bind_to("shared", reference(var("value"), Mutability::Immutable));
    assert!(
        second.reports(&["cannot immutably borrow `value` while an exclusive loan is active"]),
        "{:?}",
        second.messages()
    );
}

#[test]
fn owner_cannot_move_or_reassign_until_reference_scope_ends() {
    let mut program = Program::new();
    program.function("consume", vec![Type::String], None);
    let mut moved = program.body();
    moved.given("owner", Type::String);
    moved.bind_to("view", reference(var("owner"), Mutability::Immutable));
    moved.rvalue(&call("consume", vec![var("owner")]), None);
    assert!(
        moved.reports(&["cannot move `owner` while a shared loan is active"]),
        "{:?}",
        moved.messages()
    );

    let mut reassigned = program.body();
    let value = reassigned.bind_to("value", number(1)).unwrap();
    reassigned.bind_to("view", reference(var("value"), Mutability::Immutable));
    reassigned.ctx.push_inst(MirInst::Assign { local: value, value: Rvalue::ConstInt(2) });
    assert!(
        reassigned.reports(&["cannot reassign `value` while a shared loan is active"]),
        "{:?}",
        reassigned.messages()
    );

    let mut valid = program.body();
    valid.given("owner", Type::String);
    valid.ctx.enter_scope();
    valid.bind_to("view", reference(var("owner"), Mutability::Immutable));
    valid.ctx.exit_scope();
    valid.rvalue(&call("consume", vec![var("owner")]), None);
    assert!(valid.messages().is_empty(), "{:?}", valid.messages());
}

#[test]
fn shared_loan_provenance_survives_reference_propagation() {
    let mut program = Program::new();
    program.function("consume", vec![Type::String], None);
    let mut body = program.body();
    body.given("owner", Type::String);
    body.bind_to("first", reference(var("owner"), Mutability::Immutable));
    body.bind_to("second", var("first"));
    body.rvalue(&call("consume", vec![var("owner")]), None);
    assert!(
        body.reports(&["cannot move `owner` while a shared loan is active"]),
        "{:?}",
        body.messages()
    );
}

#[test]
fn fnmut_tasks_cannot_overlap_in_one_scope() {
    let program = Program::with_std();
    let mut body = program.body();
    let scope = body.given("thread_scope", Type::Named("std::thread::Scope".to_string()));
    body.ctx.register_scoped_callback_scope(scope);
    body.bind_to("value", number(0));
    let signature = callback(BorrowedCallableKind::FnMut, vec![], Type::Void);
    let lent = body.lending_closure("value", BorrowKind::Mutable, signature);
    let task = body.bind("task", None, lent);
    assert!(body.ctx.validate_scoped_task_captures(task, AT));
    assert!(body.ctx.reserve_scoped_task_loans(scope, task, AT));
    assert!(!body.ctx.reserve_scoped_task_loans(scope, task, AT));
    assert!(body.reports(&["FnMut task", "live scoped spawn"]), "{:?}", body.messages());

    // Once the scope is drained its tasks are over.
    body.ctx.drain_scoped_callback_scopes();
    assert!(body.insts().contains(&MirInst::DrainThreadScope(scope)));
    assert!(body.ctx.reserve_scoped_task_loans(scope, task, AT));
}

/// A function `make_task` that returns a closure over its local `name`.
fn task_maker(program: &mut Program, name: &str, ty: Type) {
    let at = |n: u32| Span { start: n, end: n + 1 };
    let written = TypeExpr::Path { segments: vec!["Captured".to_string()], span: at(20) };
    program.resolver.resolved_types.push((written.clone(), ty));
    let declared = Stmt::Let {
        mutable: false,
        name: Ident(name.to_string()),
        ty: Some(written),
        value: None,
        span: at(30),
    };
    let used = Expr::Ident(Ident(name.to_string()), at(40));
    let inner = Block { stmts: vec![Stmt::Expr(used, at(40))], span: at(50) };
    let closure = Expr::Closure {
        capture: CaptureMode::Move,
        params: Vec::new(),
        body: Box::new(Expr::Block(inner)),
        span: at(60),
    };
    let body = Block { stmts: vec![declared, Stmt::Ret(Some(closure), at(70))], span: at(80) };
    program.module.items.push(Item::Function(Function {
        name: Ident("make_task".to_string()),
        params: Vec::new(),
        ret_type: None,
        body,
        span: at(90),
    }));
    program.function("make_task", vec![], Some(fn_once(vec![], Type::Void)));
}

#[test]
fn callable_provenance_survives_a_function_return_and_local_move() {
    let mut program = Program::with_std();
    task_maker(&mut program, "message", Type::String);
    let mut body = program.body();
    body.bind_typed("returned", fn_once(vec![], Type::Void), call("make_task", vec![]));
    body.bind_typed("task", fn_once(vec![], Type::Void), var("returned"));
    body.bind_to("outcome", call("spawn", vec![var("task")]));
    assert!(body.messages().is_empty(), "{:?}", body.messages());
    assert!(body.rvalues().iter().any(|value| matches!(value, Rvalue::ThreadSpawnUnit { .. })));
}

#[test]
fn returned_callable_keeps_non_send_capture_certificate() {
    let mut program = Program::with_std();
    task_maker(&mut program, "state", shared(Type::I32));
    let mut body = program.body();
    body.bind_typed("task", fn_once(vec![], Type::Void), call("make_task", vec![]));
    body.bind_to("outcome", call("spawn", vec![var("task")]));
    assert!(
        body.messages().iter().any(|message| message.contains("`state`")
            && message.contains("Shared<T>")
            && !message.contains("provenance is unknown")),
        "{:?}",
        body.messages()
    );
}

#[test]
fn tasks_without_a_certificate_do_not_start() {
    let program = Program::with_std();
    let mut body = program.body();
    body.given("task", fn_once(vec![], Type::Void));
    let before = body.insts().len();
    let outcome = body.rvalue(&call("spawn", vec![var("task")]), None);
    assert_eq!(outcome, Some(Rvalue::ConstInt(0)));
    assert_eq!(body.insts().len(), before);
    assert_eq!(
        body.messages(),
        vec![
            "`spawn task` is not Send: callable environment provenance is unknown: callable \
             reached spawn without a compiler provenance certificate"
        ]
    );
}

#[test]
fn scopes_bring_back_what_they_hid() {
    let program = Program::new();
    let mut body = program.body();
    let outer = body.bind_to("value", number(1)).unwrap();
    body.ctx.enter_scope();
    let inner = body.bind_to("value", number(2)).unwrap();
    body.bind_to("other", number(3));
    assert_eq!(body.ctx.bound_local("value"), Some(inner));
    assert_ne!(outer, inner);
    body.ctx.exit_scope();
    assert_eq!(body.ctx.bound_local("value"), Some(outer));
    assert_eq!(body.ctx.bound_local("other"), None);
    assert_eq!(body.ctx.scope_stack.len(), 1);
    // The outermost scope is never left.
    body.ctx.exit_scope();
    assert_eq!(body.ctx.scope_stack.len(), 1);
}

#[test]
fn owned_values_are_dropped_once_in_reverse_order() {
    let program = Program::new();
    let mut body = program.body();
    body.ctx.enter_scope();
    let first = body.given("first", Type::String);
    let second = body.given("second", Type::String);
    let moved = body.given("moved", Type::String);
    body.given("plain", Type::I32);
    body.bind_to("taken", var("moved"));
    let taken = body.local("taken");
    body.ctx.exit_scope();
    let drops: Vec<MirInst> =
        body.insts().into_iter().filter(|inst| matches!(inst, MirInst::Drop(_))).collect();
    assert_eq!(drops, vec![MirInst::Drop(taken), MirInst::Drop(second), MirInst::Drop(first)]);
    assert!(!drops.contains(&MirInst::Drop(moved)));
    for local in [first, second, moved, taken] {
        assert_eq!(body.ctx.local_state(local), Some(LocalState::Moved));
    }
}

#[test]
fn reassignment_drops_the_old_value_first() {
    let program = Program::new();
    let mut body = program.body();
    let owner = body.given("owner", Type::String);
    let fresh = body.given("fresh", Type::String);
    body.ctx.push_inst(MirInst::Assign { local: owner, value: Rvalue::Move(fresh) });
    assert_eq!(
        body.ctx.blocks[0].insts,
        vec![
            MirInst::Drop(owner),
            MirInst::Assign { local: owner, value: Rvalue::Move(fresh) },
        ]
    );
    assert_eq!(body.ctx.local_state(owner), Some(LocalState::Initialized));
    assert_eq!(body.ctx.local_state(fresh), Some(LocalState::Moved));
}

#[test]
fn values_must_be_initialized_before_use() {
    let program = Program::new();
    let mut body = program.body();
    body.declare("text", Type::String);
    assert!(body.value(&var("text"), None).is_none());
    assert_eq!(
        body.messages(),
        vec![
            "use of uninitialized value `text` of type `String`",
            "this value is not definitely initialized on all reachable paths",
            "initialize the value on every reachable branch before use",
        ]
    );
}

#[test]
fn instructions_stand_in_the_block_that_is_open() {
    let program = Program::new();
    let mut body = program.body();
    let next = body.ctx.new_block();
    let count = body.ctx.locals.len();
    body.ctx.push_inst(MirInst::Goto(next));
    assert!(body.ctx.terminated());
    body.ctx.switch_to(next);
    assert!(!body.ctx.terminated());
    body.ctx.push_inst(MirInst::Return(None));
    assert_eq!(body.ctx.blocks[0].insts, vec![MirInst::Goto(next)]);
    assert_eq!(body.ctx.blocks[1].insts, vec![MirInst::Return(None)]);
    assert_eq!(body.ctx.locals.len(), count);
}

#[test]
fn static_builtins_are_told_apart_by_name_and_origin() {
    let program = Program::with_std();
    let body = program.body();
    for (name, expected) in [
        ("spawn", Some(StaticBuiltin::Spawn)),
        ("channel", Some(StaticBuiltin::Channel)),
        ("Arc::new", Some(StaticBuiltin::ArcNew)),
        ("Mutex::new", Some(StaticBuiltin::MutexNew)),
        ("AtomicI32::new", Some(StaticBuiltin::AtomicNew(AtomicScalar::I32))),
        ("Own::new", Some(StaticBuiltin::OwnNew)),
        ("Own::from_raw", Some(StaticBuiltin::OwnFromRaw)),
        ("Shared::new", Some(StaticBuiltin::SharedNew)),
        ("Vec::with_capacity", Some(StaticBuiltin::VecWithCapacity)),
        ("File::open", Some(StaticBuiltin::FileOpen { create: false })),
        ("File::create", Some(StaticBuiltin::FileOpen { create: true })),
        ("println", Some(StaticBuiltin::Print { newline: true, to_stderr: false })),
        ("std::eprint", Some(StaticBuiltin::Print { newline: false, to_stderr: true })),
        ("worker", None),
    ] {
        assert_eq!(body.ctx.static_builtin(name), expected, "{name}");
    }

    let bare = Program::new();
    let other = bare.body();
    for name in ["spawn", "channel", "Arc::new", "Mutex::new"] {
        assert_eq!(other.ctx.static_builtin(name), None, "{name}");
    }
}

#[test]
fn wrong_calls_of_intrinsics_are_reported() {
    let program = Program::with_std();
    for (expr, expected) in [
        (call("Arc::new", vec![]), "Arc::new expects exactly one argument"),
        (call("Mutex::new", vec![]), "Mutex::new expects exactly one argument"),
        (call("spawn", vec![]), "std::thread::spawn expects one FnOnce() -> T task"),
        (
            call("channel", vec![]),
            "channel expects capacity, optionally followed by `&mut Receiver<T>`",
        ),
        (
            call("channel", vec![number(2)]),
            "channel item type is ambiguous; annotate `(Sender<T>, Receiver<T>)` or `Sender<T>`",
        ),
        (
            call("spawn", vec![number(1)]),
            "std::thread::spawn expects FnOnce() -> T, found 'i32'",
        ),
    ] {
        let mut body = program.body();
        body.rvalue(&expr, None);
        assert_eq!(body.messages(), vec![expected]);
    }
}

/// A struct `Counter` with methods of each kind of receiver.
fn counter_program() -> Program {
    let mut program = Program::new();
    program.structure("Counter", vec![("value", Type::I32), ("name", Type::String)]);
    let own = Type::Named("Counter".to_string());
    let mut methods = NameMap::new();
    for (name, self_kind, receiver) in [
        ("peek", SelfKind::Ref, borrowed(own.clone())),
        ("bump", SelfKind::MutRef, Type::Ref(Box::new(own.clone()), Mutability::Mutable)),
        ("finish", SelfKind::ByValue, own.clone()),
    ] {
        let function_name = format!("Counter::{name}");
        program.function(&function_name, vec![receiver, Type::I32], Some(Type::I32));
        methods.insert(name.to_string(), MethodInfo { function_name, self_kind });
    }
    program.resolver.inherent_methods.insert("Counter".to_string(), methods);
    program
}

#[test]
fn user_methods_take_their_receiver_as_declared() {
    let program = counter_program();
    let mut body = program.body();
    let counter = body.given("counter", Type::Named("Counter".to_string()));
    for (name, mutability) in [("peek", Mutability::Immutable), ("bump", Mutability::Mutable)] {
        body.bind_to("result", method(var("counter"), name, vec![number(1)]));
        assert!(body.messages().is_empty(), "{name}: {:?}", body.messages());
        assert!(body.rvalues().contains(&Rvalue::Ref { base: counter, mutability }));
        assert!(body.rvalues().iter().any(|value| matches!(
            value,
            Rvalue::Call { name: function, args }
                if *function == format!("Counter::{name}") && args.len() == 2
        )));
    }
    body.bind_to("result", method(var("counter"), "finish", vec![number(1)]));
    assert!(body.messages().is_empty(), "{:?}", body.messages());
    assert!(body.rvalues().contains(&Rvalue::Call {
        name: "Counter::finish".to_string(),
        args: vec![MirValue::Local(counter), MirValue::Int(1)],
    }));

    let mut missing = program.body();
    missing.given("counter", Type::Named("Counter".to_string()));
    missing.rvalue(&method(var("counter"), "reset", vec![]), None);
    assert_eq!(missing.messages(), vec!["no method 'reset' found on type 'Counter'"]);
}

#[test]
fn atomic_operations_are_sequentially_consistent() {
    let program = Program::new();
    let mut body = program.body();
    let cell = body.given("cell", atomic());
    let scalar = AtomicScalar::I32;
    let ordering = AtomicOrdering::SeqCst;
    let rmw = |op: AtomicRmwOp| Rvalue::AtomicRmw {
        atomic: cell,
        value: MirValue::Int(5),
        scalar,
        op,
        ordering,
    };
    for (name, args, expected) in [
        ("load", vec![], Rvalue::AtomicLoad { atomic: cell, scalar, ordering }),
        (
            "store",
            vec![number(5)],
            Rvalue::AtomicStore { atomic: cell, value: MirValue::Int(5), scalar, ordering },
        ),
        ("swap", vec![number(5)], rmw(AtomicRmwOp::Swap)),
        ("fetch_add", vec![number(5)], rmw(AtomicRmwOp::Add)),
        ("fetch_sub", vec![number(5)], rmw(AtomicRmwOp::Sub)),
        (
            "compare_exchange",
            vec![number(5), number(6)],
            Rvalue::AtomicCompareExchange {
                atomic: cell,
                expected: MirValue::Int(5),
                desired: MirValue::Int(6),
                scalar,
                success: ordering,
                failure: ordering,
            },
        ),
        ("is_lock_free", vec![], Rvalue::AtomicIsLockFree { scalar }),
    ] {
        let result = body.rvalue(&method(var("cell"), name, args), None);
        assert!(matches!(result, Some(Rvalue::Move(_))), "{name}: {:?}", body.messages());
        assert_eq!(body.rvalues().last(), Some(&expected), "{name}");
    }
    assert!(body.messages().is_empty(), "{:?}", body.messages());
}

#[test]
fn wrong_atomic_calls_are_reported() {
    let program = Program::new();
    for (ty, expr, expected) in [
        (
            atomic(),
            method(var("cell"), "load", vec![number(1)]),
            "atomic .load() expects 0 arguments but got 1",
        ),
        (
            atomic(),
            method(var("cell"), "store", vec![]),
            "atomic .store() expects 1 argument but got 0",
        ),
        (
            Type::Atomic(AtomicScalar::Bool),
            method(var("cell"), "fetch_add", vec![number(1)]),
            "AtomicBool does not support .fetch_add()",
        ),
        (atomic(), call("AtomicI32::new", vec![]), "AtomicI32 expects exactly one initial value"),
    ] {
        let mut body = program.body();
        body.given("cell", ty);
        body.rvalue(&expr, None);
        assert_eq!(body.messages().first().map(String::as_str), Some(expected));
    }
}

#[test]
fn string_constants_are_named_after_their_function() {
    let program = Program::new();
    let mut body = program.named_body("Counter::get");
    assert_eq!(body.ctx.fresh_string_global(), ".str.Counter_get.0");
    assert_eq!(body.ctx.fresh_string_global(), ".str.Counter_get.1");
}

#[test]
fn declarations_are_found_by_name_and_place() {
    let program = Program::new();
    let mut body = program.body();
    let first = body.given("value", Type::I32);
    let second = body.given("value", Type::I32);
    let other = Span { start: 20, end: 21 };
    body.ctx.register_source_binding("value", AT, first);
    body.ctx.register_source_binding("value", other, second);
    assert_eq!(body.ctx.source_binding_local("value", AT), Some(first));
    assert_eq!(body.ctx.source_binding_local("value", other), Some(second));
    assert_eq!(body.ctx.source_binding_local("other", AT), None);
}

#[test]
fn implicit_dereferences_are_marked_references() {
    let program = Program::new();
    let mut body = program.body();
    let view = body.given("view", borrowed(Type::I32));
    let plain = body.given("plain", Type::I32);
    assert_eq!(body.ctx.implicit_deref_type(view), None);
    body.ctx.mark_implicit_deref(view);
    body.ctx.mark_implicit_deref(plain);
    assert_eq!(body.ctx.implicit_deref_type(view), Some(&Type::I32));
    assert_eq!(body.ctx.implicit_deref_type(plain), None);
}

#[test]
fn atomic_fields_are_used_through_their_address() {
    let mut program = Program::new();
    program.structure("Stats", vec![("name", Type::String), ("hits", atomic())]);
    let scalar = AtomicScalar::I32;
    let ordering = AtomicOrdering::SeqCst;
    for called in [method, field_call] {
        let mut body = program.body();
        let stats = body.given("stats", Type::Named("Stats".to_string()));
        let hits = || field(var("stats"), "hits");
        let result = body.rvalue(&called(hits(), "fetch_add", vec![number(2)]), None);
        assert!(matches!(result, Some(Rvalue::Move(_))), "{:?}", body.messages());
        let address = Rvalue::FieldRef {
            base: stats,
            field_name: "hits".to_string(),
            field_index: 1,
            mutability: Mutability::Immutable,
        };
        let rvalues = body.rvalues();
        assert_eq!(rvalues[rvalues.len() - 2], address);
        let cell = LocalId(stats.0 + 1);
        assert_eq!(body.type_of(cell), Some(borrowed(atomic())));
        assert_eq!(
            rvalues.last(),
            Some(&Rvalue::AtomicRmw {
                atomic: cell,
                value: MirValue::Int(2),
                scalar,
                op: AtomicRmwOp::Add,
                ordering,
            })
        );
        assert!(body.messages().is_empty(), "{:?}", body.messages());
    }
}

#[test]
fn refused_atomic_calls_are_left_to_other_methods() {
    let mut program = Program::new();
    program.structure("Stats", vec![("name", Type::String)]);
    let name = || field(var("stats"), "name");

    // A field that is no atomic cell may have a method of that name.
    let mut called = program.body();
    called.given("stats", Type::Named("Stats".to_string()));
    assert_eq!(called.rvalue(&method(name(), "load", vec![]), None), None);
    assert_eq!(called.messages(), vec!["methods can only be called on struct types"]);

    // A call of a field ends there.
    let mut ended = program.body();
    ended.given("stats", Type::Named("Stats".to_string()));
    assert_eq!(ended.rvalue(&field_call(name(), "load", vec![]), None), None);
    assert!(ended.messages().is_empty(), "{:?}", ended.messages());

    // Without an address there is no atomic call.
    let mut refused = program.body();
    let step = refused.ctx.supply_atomic_reference(None, "load", &vec![], AT);
    assert!(matches!(step, AtomicStep::Refused));
    assert!(refused.messages().is_empty());
}

#[test]
fn methods_can_be_written_as_calls_of_fields() {
    let program = Program::with_std();

    let mut cell = program.body();
    let local = cell.given("cell", atomic());
    let result = cell.rvalue(&field_call(var("cell"), "load", vec![]), None);
    assert!(matches!(result, Some(Rvalue::Move(_))), "{:?}", cell.messages());
    assert_eq!(
        cell.rvalues().last(),
        Some(&Rvalue::AtomicLoad {
            atomic: local,
            scalar: AtomicScalar::I32,
            ordering: AtomicOrdering::SeqCst,
        })
    );

    for (name, args, expected) in [
        ("len", vec![number(1)], ".len() does not take arguments"),
        ("into_raw", vec![number(1)], "into_raw() does not take arguments"),
        ("launch", vec![], "call target must be a function or callable local"),
    ] {
        let mut body = program.body();
        body.given("value", Type::I32);
        assert_eq!(body.rvalue(&field_call(var("value"), name, args), None), None);
        assert_eq!(body.messages(), vec![expected]);
    }

    for (name, wanted) in [
        ("len", BuiltinMethod::ArrayLen),
        ("into_raw", BuiltinMethod::OwnIntoRaw),
        ("add", BuiltinMethod::MapAdd),
        ("update", BuiltinMethod::MapUpdate),
        ("del", BuiltinMethod::MapDel),
        ("get", BuiltinMethod::MapGet),
        ("has", BuiltinMethod::MapHas),
        ("keys", BuiltinMethod::MapKeys),
        ("vals", BuiltinMethod::MapVals),
    ] {
        let mut body = program.body();
        body.given("value", Type::I32);
        match body.ctx.lower_other_field_call(&var("value"), name, &vec![], AT) {
            CallRoute::Method(MethodStep::Builtins { tries, then_struct }) => {
                assert_eq!(tries, vec![wanted]);
                assert!(!then_struct);
            }
            other => panic!("{name}: {other:?}"),
        }
        assert!(body.messages().is_empty());
    }
}

#[test]
fn a_thread_handle_that_cannot_be_lowered_is_no_thread_handle() {
    let program = Program::with_std();
    let handle = canonical_thread_handle_type(Type::I32);

    // The value is gone: the report stands, and the call is looked at again.
    let moved = "use of moved value `handle` of type `std::thread::JoinHandle<i32>`";
    for (called, last) in [
        (
            field_call(var("handle"), "join", vec![]),
            "call target must be a function or callable local",
        ),
        (
            method(var("handle"), "join", vec![]),
            "methods can only be called on struct types",
        ),
    ] {
        let mut body = program.body();
        let local = body.given("handle", handle.clone());
        body.ctx.set_state(local, LocalState::Moved);
        assert_eq!(body.rvalue(&called, None), None);
        let messages = body.messages();
        assert_eq!(messages.first().map(String::as_str), Some(moved));
        assert_eq!(messages.last().map(String::as_str), Some(last));
        assert!(body.rvalues().is_empty());
    }
}

#[test]
fn builtin_methods_are_tried_one_after_the_other() {
    let mut program = Program::new();
    program.structure("Counter", vec![("n", Type::I32)]);
    let mut body = program.body();
    body.given("counter", Type::Named("Counter".to_string()));
    let receiver = var("counter");
    let args = Vec::new();
    let tries = vec![BuiltinMethod::VecLen, BuiltinMethod::StringLen];

    let step = MethodStep::Builtins { tries: tries.clone(), then_struct: true };
    let step = body.ctx.resume_method(step, &receiver, "len", &args, AT, Some(None));
    match &step {
        MethodStep::Builtins { tries, then_struct } => {
            assert_eq!(tries, &vec![BuiltinMethod::StringLen]);
            assert!(then_struct);
        }
        other => panic!("{other:?}"),
    }
    let step = body.ctx.resume_method(step, &receiver, "len", &args, AT, Some(None));
    assert!(matches!(step, MethodStep::Done(None)));
    assert_eq!(body.messages(), vec!["no method 'len' found on type 'Counter'"]);

    let mut found = program.body();
    let step = MethodStep::Builtins { tries, then_struct: true };
    let value = Some(Rvalue::ConstInt(3));
    let step = found.ctx.resume_method(step, &receiver, "len", &args, AT, Some(value));
    assert!(matches!(step, MethodStep::Done(Some(Rvalue::ConstInt(3)))));
    assert!(found.messages().is_empty());

    let step = MethodStep::Builtins { tries: vec![BuiltinMethod::MapAdd], then_struct: false };
    let step = found.ctx.resume_method(step, &receiver, "add", &args, AT, Some(None));
    assert!(matches!(step, MethodStep::Done(None)));
    assert!(found.messages().is_empty());
}

#[test]
fn a_static_call_that_gives_nothing_is_the_call_of_its_name() {
    let mut program = Program::new();
    program.function("spawn", vec![], Some(Type::I32));
    let mut body = program.body();
    let callee = var("spawn");
    let route = CallRoute::Static(StaticBuiltin::Spawn);
    match body.ctx.resume_call(route, &callee, &vec![], AT, None, Some(None)) {
        CallRoute::Step(step) => {
            assert!(matches!(body.arguments(step, &vec![]), Some(Rvalue::Move(_))));
        }
        other => panic!("{other:?}"),
    }
    assert_eq!(
        body.rvalues().last(),
        Some(&Rvalue::Call { name: "spawn".to_string(), args: vec![] })
    );

    let route = CallRoute::Static(StaticBuiltin::Spawn);
    let value = Some(Rvalue::ConstInt(4));
    let route = body.ctx.resume_call(route, &callee, &vec![], AT, None, Some(value));
    assert!(matches!(route, CallRoute::Step(CallStep::Done(Some(Rvalue::ConstInt(4))))));
}
