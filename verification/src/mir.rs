//! The mid-level representation: functions as blocks of straight-line
//! instructions over numbered locals.

use vstd::prelude::*;

use crate::ast::BinaryOp;
use crate::atomic::{AtomicOrdering, AtomicRmwOp, AtomicScalar};
use crate::table::NameMap;
use crate::types::{type_option_view, EnumType, Mutability, StructType, Type, TypeView};

verus! {

#[derive(Debug, Clone, PartialEq)]
pub struct MirFunction {
    pub name: String,
    pub ret_type: Option<Type>,
    pub params: Vec<LocalId>,
    pub locals: Vec<Local>,
    pub blocks: Vec<MirBlock>,
}

#[derive(Debug, Clone, PartialEq)]
pub struct Local {
    pub name: Option<String>,
    pub ty: Option<Type>,
    pub mutable: bool,
    pub skip_drop: bool,
}

#[derive(Debug, Clone, PartialEq)]
pub struct MirModule {
    pub struct_types: NameMap<StructType>,
    pub enum_types: NameMap<EnumType>,
    pub functions: Vec<MirFunction>,
    pub extern_functions: Vec<MirExternFunction>,
}

impl Default for MirModule {
    fn default() -> (module: MirModule)
        ensures
            module.struct_types@.len() == 0,
            module.enum_types@.len() == 0,
            module.functions@.len() == 0,
            module.extern_functions@.len() == 0,
    {
        MirModule {
            struct_types: NameMap::new(),
            enum_types: NameMap::new(),
            functions: Vec::new(),
            extern_functions: Vec::new(),
        }
    }
}

#[derive(Debug, Clone, PartialEq)]
pub struct MirExternFunction {
    pub name: String,
    pub ret_type: Option<Type>,
    pub params: Vec<Type>,
    pub abi: Option<String>,
    pub link_name: Option<String>,
}

#[derive(Debug, Clone, PartialEq, Default)]
pub struct MirBlock {
    pub insts: Vec<MirInst>,
}

#[derive(Debug, Clone, Copy, PartialEq, Eq, Hash, Structural)]
pub struct BlockId(pub u32);

#[derive(Debug, Clone, Copy, PartialEq, Eq, Hash, Structural)]
pub struct LocalId(pub u32);

#[derive(Debug, Clone, Copy, PartialEq, Eq, Structural)]
pub enum MirValue {
    Unit,
    Int(i64),
    /// A floating-point constant by its IEEE 754 bits.
    Float(u64),
    Bool(bool),
    Local(LocalId),
}

/// How a capture gets into an owned closure environment.
#[derive(Debug, Clone, Copy, PartialEq, Eq, Structural)]
pub enum CaptureTransfer {
    Copy,
    Move,
}

/// How a lexical loan reaches its owner.
#[derive(Debug, Clone, Copy, PartialEq, Eq, Structural)]
pub enum BorrowKind {
    Shared,
    Mutable,
}

/// A local captured by an owned closure.
#[derive(Debug, Clone, PartialEq, Eq)]
pub struct ClosureCapture {
    pub name: String,
    pub local: LocalId,
    pub ty: Type,
    pub transfer: CaptureTransfer,
}

/// A local captured by a borrowing closure.
#[derive(Debug, Clone, PartialEq, Eq)]
pub struct BorrowedClosureCapture {
    pub name: String,
    pub local: LocalId,
    pub ty: Type,
    pub borrow: BorrowKind,
}

#[derive(Debug, Clone, PartialEq)]
pub enum MirInst {
    Assign { local: LocalId, value: Rvalue },
    AssignField { base: LocalId, field_name: String, field_index: u32, value: Rvalue },
    AssignIndex { base: LocalId, index: MirValue, value: Rvalue },
    Return(Option<MirValue>),
    Goto(BlockId),
    If { cond: MirValue, then_bb: BlockId, else_bb: BlockId },
    Drop(LocalId),
    DropThreadHandle(LocalId),
    DropThreadScope(LocalId),
    DrainThreadScope(LocalId),
    DropScopedThreadHandle(LocalId),
    Nop,
}

#[derive(Debug, Clone, PartialEq)]
pub enum Rvalue {
    ConstInt(i64),
    /// A floating-point constant by its IEEE 754 bits.
    ConstFloat(u64),
    ConstBool(bool),
    Move(LocalId),
    Deref { base: LocalId, elem_type: Type },
    StringLit { content: String, global_name: String },
    Binary { op: BinaryOp, lhs: MirValue, rhs: MirValue },
    Cast { value: MirValue, from: Type, to: Type },
    Call { name: String, args: Vec<MirValue> },
    /// Construct a non-capturing callable value for a named function.
    ///
    /// The explicit signature keeps serialized MIR self-describing and lets
    /// the backend validate/reconstruct the erased indirect-call ABI.
    FunctionRef { name: String, signature: Type },
    /// Construct an owned callable from captured locals.
    MakeClosure { function: String, signature: Type, captures: Vec<ClosureCapture> },
    /// Construct a callable that borrows captured locals.
    MakeBorrowedClosure {
        function: String,
        signature: Type,
        captures: Vec<BorrowedClosureCapture>,
    },
    /// Consume an owned callable and invoke it once.
    CallIndirect { callee: LocalId, signature: Type, args: Vec<MirValue> },
    /// Invoke a callable that borrows its environment.
    CallIndirectShared { callee: LocalId, signature: Type, args: Vec<MirValue> },
    /// Invoke a callable that borrows its environment exclusively.
    CallIndirectMut { callee: LocalId, signature: Type, args: Vec<MirValue> },
    ThreadSpawnUnit { task: LocalId, out_handle: LocalId },
    ThreadSpawnResult { task: LocalId, out_handle: LocalId, result_type: Type },
    ThreadJoinUnit { handle: LocalId },
    ThreadJoinResult { handle: LocalId, out_result: LocalId, result_type: Type },
    ThreadDetachUnit { handle: LocalId },
    ThreadHandleFromRaw { raw: LocalId },
    ThreadHandleIntoRaw { handle: LocalId },
    ThreadErrorFromStatus { status: MirValue },
    ThreadScopeCreate { out_scope: LocalId },
    ThreadScopeExit { scope: LocalId },
    ThreadScopeFromRaw { raw: LocalId },
    ThreadScopeDrain { scope: LocalId },
    ScopedThreadSpawnUnit { scope: LocalId, task: LocalId, out_handle: LocalId },
    ScopedThreadSpawnResult {
        scope: LocalId,
        task: LocalId,
        out_handle: LocalId,
        result_type: Type,
    },
    ScopedThreadJoinUnit { handle: LocalId },
    ScopedThreadJoinResult { handle: LocalId, out_result: LocalId, result_type: Type },
    ScopedThreadHandleFromRaw { raw: LocalId, result_type: Type },
    ScopedThreadHandleIntoRaw { handle: LocalId, result_type: Type },
    StructLit { struct_name: String, field_values: Vec<(String, MirValue)> },
    FieldAccess { base: LocalId, field_name: String, field_index: u32 },
    FieldRef { base: LocalId, field_name: String, field_index: u32, mutability: Mutability },
    Ref { base: LocalId, mutability: Mutability },
    ArrayLit { elem_type: Type, elements: Vec<MirValue> },
    ArrayIndex { base: LocalId, index: MirValue, bounds_check: bool },
    ArrayLen { base: LocalId },
    VecNew { elem_type: Type },
    VecWithCapacity { elem_type: Type, capacity: MirValue },
    VecPush { vec: LocalId, elem_type: Type, value: MirValue },
    VecPop { vec: LocalId, elem_type: Type },
    VecLen { vec: LocalId },
    VecIndex { vec: LocalId, elem_type: Type, index: MirValue, bounds_check: bool },
    VecIndexRef {
        vec: LocalId,
        elem_type: Type,
        index: MirValue,
        bounds_check: bool,
        mutability: Mutability,
    },
    MapNew { key_type: Type, value_type: Type },
    MapWithCapacity { key_type: Type, value_type: Type, capacity: MirValue },
    MapAdd { map: LocalId, key_type: Type, key: MirValue, value_type: Type, value: MirValue },
    MapUpdate { map: LocalId, key_type: Type, key: MirValue, value_type: Type, value: MirValue },
    MapDel { map: LocalId, key_type: Type, value_type: Type, key: MirValue },
    MapGet { map: LocalId, key_type: Type, value_type: Type, key: MirValue },
    MapHas { map: LocalId, key_type: Type, key: MirValue },
    MapKeys { map: LocalId, key_type: Type, value_type: Type },
    MapVals { map: LocalId, key_type: Type, value_type: Type },
    FileOpen { path: MirValue, create: bool },
    FileReadToString { file: LocalId },
    FileWriteString { file: LocalId, contents: MirValue },
    FileClose { file: LocalId },
    StringLen { base: LocalId },
    StringConcat { base: LocalId, value: MirValue },
    StringSlice { base: LocalId, start: MirValue, len: MirValue },
    StringTrim { base: LocalId },
    StringSplit { base: LocalId, sep: MirValue },
    StringStartsWith { base: LocalId, needle: MirValue },
    StringEndsWith { base: LocalId, needle: MirValue },
    StringClone { base: LocalId },
    OwnNew { value: MirValue, elem_type: Type },
    OwnIntoRaw { base: LocalId, elem_type: Type },
    OwnFromRaw { ptr: MirValue, elem_type: Type },
    RawPtrNull { elem_type: Type },
    SharedNew { value: MirValue, elem_type: Type },
    SharedClone { base: LocalId, elem_type: Type },
    ArcNew { value: MirValue, elem_type: Type },
    ArcClone { base: LocalId, elem_type: Type },
    ArcBorrow { base: LocalId, elem_type: Type },
    MutexNew { value: MirValue, elem_type: Type },
    MutexLock { base: LocalId, elem_type: Type },
    MutexTryLock { base: LocalId, elem_type: Type },
    MutexGuardIsAcquired { guard: LocalId, elem_type: Type },
    MutexGuardBorrow { guard: LocalId, elem_type: Type },
    SpscChannelNew { capacity: MirValue, out_receiver: LocalId, elem_type: Type },
    SpscTrySend { sender: LocalId, value: LocalId, out_unsent: LocalId, elem_type: Type },
    SpscTryRecv { receiver: LocalId, out_value: LocalId, elem_type: Type },
    /// Initialize atomic storage before it can be shared.
    AtomicNew { value: MirValue, scalar: AtomicScalar },
    AtomicLoad { atomic: LocalId, scalar: AtomicScalar, ordering: AtomicOrdering },
    AtomicStore {
        atomic: LocalId,
        value: MirValue,
        scalar: AtomicScalar,
        ordering: AtomicOrdering,
    },
    AtomicRmw {
        atomic: LocalId,
        value: MirValue,
        scalar: AtomicScalar,
        op: AtomicRmwOp,
        ordering: AtomicOrdering,
    },
    /// Returns the value observed before the compare-exchange attempt. The
    /// exchange succeeded exactly when the result equals `expected`.
    AtomicCompareExchange {
        atomic: LocalId,
        expected: MirValue,
        desired: MirValue,
        scalar: AtomicScalar,
        success: AtomicOrdering,
        failure: AtomicOrdering,
    },
    AtomicFence { ordering: AtomicOrdering },
    AtomicIsLockFree { scalar: AtomicScalar },
    EnumConstruct { enum_name: String, variant_index: u32, payload: Option<MirValue> },
    EnumTag { base: LocalId },
    EnumPayload { base: LocalId, variant_index: u32, payload_type: Type },
}

/// The mathematical model of a [`ClosureCapture`].
pub struct ClosureCaptureView {
    pub name: Seq<char>,
    pub local: LocalId,
    pub ty: TypeView,
    pub transfer: CaptureTransfer,
}

/// The mathematical model of a [`BorrowedClosureCapture`].
pub struct BorrowedClosureCaptureView {
    pub name: Seq<char>,
    pub local: LocalId,
    pub ty: TypeView,
    pub borrow: BorrowKind,
}

impl View for ClosureCapture {
    type V = ClosureCaptureView;

    open spec fn view(&self) -> ClosureCaptureView {
        ClosureCaptureView {
            name: self.name@,
            local: self.local,
            ty: self.ty@,
            transfer: self.transfer,
        }
    }
}

impl View for BorrowedClosureCapture {
    type V = BorrowedClosureCaptureView;

    open spec fn view(&self) -> BorrowedClosureCaptureView {
        BorrowedClosureCaptureView {
            name: self.name@,
            local: self.local,
            ty: self.ty@,
            borrow: self.borrow,
        }
    }
}

pub open spec fn owned_captures_view(captures: Seq<ClosureCapture>) -> Seq<ClosureCaptureView> {
    Seq::new(captures.len(), |i: int| captures[i]@)
}

pub open spec fn borrowed_captures_view(captures: Seq<BorrowedClosureCapture>) -> Seq<
    BorrowedClosureCaptureView,
> {
    Seq::new(captures.len(), |i: int| captures[i]@)
}

/// The mathematical model of a [`Local`].
pub struct LocalView {
    pub name: Option<Seq<char>>,
    pub ty: Option<TypeView>,
    pub mutable: bool,
    pub skip_drop: bool,
}

impl View for Local {
    type V = LocalView;

    open spec fn view(&self) -> LocalView {
        LocalView {
            name: match self.name {
                Some(name) => Some(name@),
                None => None,
            },
            ty: type_option_view(self.ty),
            mutable: self.mutable,
            skip_drop: self.skip_drop,
        }
    }
}

pub open spec fn locals_view(locals: Seq<Local>) -> Seq<LocalView> {
    Seq::new(locals.len(), |i: int| locals[i]@)
}

pub open spec fn field_values_view(fields: Seq<(String, MirValue)>) -> Seq<(Seq<char>, MirValue)> {
    Seq::new(fields.len(), |i: int| (fields[i].0@, fields[i].1))
}

/// The mathematical model of an [`Rvalue`].
pub enum RvalueView {
    ConstInt(i64),
    ConstFloat(u64),
    ConstBool(bool),
    Move(LocalId),
    Deref { base: LocalId, elem_type: TypeView },
    StringLit { content: Seq<char>, global_name: Seq<char> },
    Binary { op: BinaryOp, lhs: MirValue, rhs: MirValue },
    Cast { value: MirValue, from: TypeView, to: TypeView },
    Call { name: Seq<char>, args: Seq<MirValue> },
    FunctionRef { name: Seq<char>, signature: TypeView },
    MakeClosure { function: Seq<char>, signature: TypeView, captures: Seq<ClosureCaptureView> },
    MakeBorrowedClosure {
        function: Seq<char>,
        signature: TypeView,
        captures: Seq<BorrowedClosureCaptureView>,
    },
    CallIndirect { callee: LocalId, signature: TypeView, args: Seq<MirValue> },
    CallIndirectShared { callee: LocalId, signature: TypeView, args: Seq<MirValue> },
    CallIndirectMut { callee: LocalId, signature: TypeView, args: Seq<MirValue> },
    ThreadSpawnUnit { task: LocalId, out_handle: LocalId },
    ThreadSpawnResult { task: LocalId, out_handle: LocalId, result_type: TypeView },
    ThreadJoinUnit { handle: LocalId },
    ThreadJoinResult { handle: LocalId, out_result: LocalId, result_type: TypeView },
    ThreadDetachUnit { handle: LocalId },
    ThreadHandleFromRaw { raw: LocalId },
    ThreadHandleIntoRaw { handle: LocalId },
    ThreadErrorFromStatus { status: MirValue },
    ThreadScopeCreate { out_scope: LocalId },
    ThreadScopeExit { scope: LocalId },
    ThreadScopeFromRaw { raw: LocalId },
    ThreadScopeDrain { scope: LocalId },
    ScopedThreadSpawnUnit { scope: LocalId, task: LocalId, out_handle: LocalId },
    ScopedThreadSpawnResult {
        scope: LocalId,
        task: LocalId,
        out_handle: LocalId,
        result_type: TypeView,
    },
    ScopedThreadJoinUnit { handle: LocalId },
    ScopedThreadJoinResult { handle: LocalId, out_result: LocalId, result_type: TypeView },
    ScopedThreadHandleFromRaw { raw: LocalId, result_type: TypeView },
    ScopedThreadHandleIntoRaw { handle: LocalId, result_type: TypeView },
    StructLit { struct_name: Seq<char>, field_values: Seq<(Seq<char>, MirValue)> },
    FieldAccess { base: LocalId, field_name: Seq<char>, field_index: u32 },
    FieldRef { base: LocalId, field_name: Seq<char>, field_index: u32, mutability: Mutability },
    Ref { base: LocalId, mutability: Mutability },
    ArrayLit { elem_type: TypeView, elements: Seq<MirValue> },
    ArrayIndex { base: LocalId, index: MirValue, bounds_check: bool },
    ArrayLen { base: LocalId },
    VecNew { elem_type: TypeView },
    VecWithCapacity { elem_type: TypeView, capacity: MirValue },
    VecPush { vec: LocalId, elem_type: TypeView, value: MirValue },
    VecPop { vec: LocalId, elem_type: TypeView },
    VecLen { vec: LocalId },
    VecIndex { vec: LocalId, elem_type: TypeView, index: MirValue, bounds_check: bool },
    VecIndexRef {
        vec: LocalId,
        elem_type: TypeView,
        index: MirValue,
        bounds_check: bool,
        mutability: Mutability,
    },
    MapNew { key_type: TypeView, value_type: TypeView },
    MapWithCapacity { key_type: TypeView, value_type: TypeView, capacity: MirValue },
    MapAdd {
        map: LocalId,
        key_type: TypeView,
        key: MirValue,
        value_type: TypeView,
        value: MirValue,
    },
    MapUpdate {
        map: LocalId,
        key_type: TypeView,
        key: MirValue,
        value_type: TypeView,
        value: MirValue,
    },
    MapDel { map: LocalId, key_type: TypeView, value_type: TypeView, key: MirValue },
    MapGet { map: LocalId, key_type: TypeView, value_type: TypeView, key: MirValue },
    MapHas { map: LocalId, key_type: TypeView, key: MirValue },
    MapKeys { map: LocalId, key_type: TypeView, value_type: TypeView },
    MapVals { map: LocalId, key_type: TypeView, value_type: TypeView },
    FileOpen { path: MirValue, create: bool },
    FileReadToString { file: LocalId },
    FileWriteString { file: LocalId, contents: MirValue },
    FileClose { file: LocalId },
    StringLen { base: LocalId },
    StringConcat { base: LocalId, value: MirValue },
    StringSlice { base: LocalId, start: MirValue, len: MirValue },
    StringTrim { base: LocalId },
    StringSplit { base: LocalId, sep: MirValue },
    StringStartsWith { base: LocalId, needle: MirValue },
    StringEndsWith { base: LocalId, needle: MirValue },
    StringClone { base: LocalId },
    OwnNew { value: MirValue, elem_type: TypeView },
    OwnIntoRaw { base: LocalId, elem_type: TypeView },
    OwnFromRaw { ptr: MirValue, elem_type: TypeView },
    RawPtrNull { elem_type: TypeView },
    SharedNew { value: MirValue, elem_type: TypeView },
    SharedClone { base: LocalId, elem_type: TypeView },
    ArcNew { value: MirValue, elem_type: TypeView },
    ArcClone { base: LocalId, elem_type: TypeView },
    ArcBorrow { base: LocalId, elem_type: TypeView },
    MutexNew { value: MirValue, elem_type: TypeView },
    MutexLock { base: LocalId, elem_type: TypeView },
    MutexTryLock { base: LocalId, elem_type: TypeView },
    MutexGuardIsAcquired { guard: LocalId, elem_type: TypeView },
    MutexGuardBorrow { guard: LocalId, elem_type: TypeView },
    SpscChannelNew { capacity: MirValue, out_receiver: LocalId, elem_type: TypeView },
    SpscTrySend { sender: LocalId, value: LocalId, out_unsent: LocalId, elem_type: TypeView },
    SpscTryRecv { receiver: LocalId, out_value: LocalId, elem_type: TypeView },
    AtomicNew { value: MirValue, scalar: AtomicScalar },
    AtomicLoad { atomic: LocalId, scalar: AtomicScalar, ordering: AtomicOrdering },
    AtomicStore {
        atomic: LocalId,
        value: MirValue,
        scalar: AtomicScalar,
        ordering: AtomicOrdering,
    },
    AtomicRmw {
        atomic: LocalId,
        value: MirValue,
        scalar: AtomicScalar,
        op: AtomicRmwOp,
        ordering: AtomicOrdering,
    },
    AtomicCompareExchange {
        atomic: LocalId,
        expected: MirValue,
        desired: MirValue,
        scalar: AtomicScalar,
        success: AtomicOrdering,
        failure: AtomicOrdering,
    },
    AtomicFence { ordering: AtomicOrdering },
    AtomicIsLockFree { scalar: AtomicScalar },
    EnumConstruct { enum_name: Seq<char>, variant_index: u32, payload: Option<MirValue> },
    EnumTag { base: LocalId },
    EnumPayload { base: LocalId, variant_index: u32, payload_type: TypeView },
}

pub open spec fn rvalue_view(value: Rvalue) -> RvalueView {
    match value {
        Rvalue::ConstInt(value) => RvalueView::ConstInt(value),
        Rvalue::ConstFloat(value) => RvalueView::ConstFloat(value),
        Rvalue::ConstBool(value) => RvalueView::ConstBool(value),
        Rvalue::Move(value) => RvalueView::Move(value),
        Rvalue::Deref { base, elem_type } => RvalueView::Deref { base, elem_type: elem_type@ },
        Rvalue::StringLit { content, global_name } => RvalueView::StringLit {
            content: content@,
            global_name: global_name@,
        },
        Rvalue::Binary { op, lhs, rhs } => RvalueView::Binary { op, lhs, rhs },
        Rvalue::Cast { value, from, to } => RvalueView::Cast { value, from: from@, to: to@ },
        Rvalue::Call { name, args } => RvalueView::Call { name: name@, args: args@ },
        Rvalue::FunctionRef { name, signature } => RvalueView::FunctionRef {
            name: name@,
            signature: signature@,
        },
        Rvalue::MakeClosure { function, signature, captures } => RvalueView::MakeClosure {
            function: function@,
            signature: signature@,
            captures: owned_captures_view(captures@),
        },
        Rvalue::MakeBorrowedClosure { function, signature, captures } => RvalueView::MakeBorrowedClosure {
            function: function@,
            signature: signature@,
            captures: borrowed_captures_view(captures@),
        },
        Rvalue::CallIndirect { callee, signature, args } => RvalueView::CallIndirect {
            callee,
            signature: signature@,
            args: args@,
        },
        Rvalue::CallIndirectShared { callee, signature, args } => RvalueView::CallIndirectShared {
            callee,
            signature: signature@,
            args: args@,
        },
        Rvalue::CallIndirectMut { callee, signature, args } => RvalueView::CallIndirectMut {
            callee,
            signature: signature@,
            args: args@,
        },
        Rvalue::ThreadSpawnUnit { task, out_handle } => RvalueView::ThreadSpawnUnit {
            task,
            out_handle,
        },
        Rvalue::ThreadSpawnResult { task, out_handle, result_type } => RvalueView::ThreadSpawnResult {
            task,
            out_handle,
            result_type: result_type@,
        },
        Rvalue::ThreadJoinUnit { handle } => RvalueView::ThreadJoinUnit { handle },
        Rvalue::ThreadJoinResult { handle, out_result, result_type } => RvalueView::ThreadJoinResult {
            handle,
            out_result,
            result_type: result_type@,
        },
        Rvalue::ThreadDetachUnit { handle } => RvalueView::ThreadDetachUnit { handle },
        Rvalue::ThreadHandleFromRaw { raw } => RvalueView::ThreadHandleFromRaw { raw },
        Rvalue::ThreadHandleIntoRaw { handle } => RvalueView::ThreadHandleIntoRaw { handle },
        Rvalue::ThreadErrorFromStatus { status } => RvalueView::ThreadErrorFromStatus { status },
        Rvalue::ThreadScopeCreate { out_scope } => RvalueView::ThreadScopeCreate { out_scope },
        Rvalue::ThreadScopeExit { scope } => RvalueView::ThreadScopeExit { scope },
        Rvalue::ThreadScopeFromRaw { raw } => RvalueView::ThreadScopeFromRaw { raw },
        Rvalue::ThreadScopeDrain { scope } => RvalueView::ThreadScopeDrain { scope },
        Rvalue::ScopedThreadSpawnUnit { scope, task, out_handle } => RvalueView::ScopedThreadSpawnUnit {
            scope,
            task,
            out_handle,
        },
        Rvalue::ScopedThreadSpawnResult { scope, task, out_handle, result_type } => RvalueView::ScopedThreadSpawnResult {
            scope,
            task,
            out_handle,
            result_type: result_type@,
        },
        Rvalue::ScopedThreadJoinUnit { handle } => RvalueView::ScopedThreadJoinUnit { handle },
        Rvalue::ScopedThreadJoinResult { handle, out_result, result_type } => RvalueView::ScopedThreadJoinResult {
            handle,
            out_result,
            result_type: result_type@,
        },
        Rvalue::ScopedThreadHandleFromRaw { raw, result_type } => RvalueView::ScopedThreadHandleFromRaw {
            raw,
            result_type: result_type@,
        },
        Rvalue::ScopedThreadHandleIntoRaw { handle, result_type } => RvalueView::ScopedThreadHandleIntoRaw {
            handle,
            result_type: result_type@,
        },
        Rvalue::StructLit { struct_name, field_values } => RvalueView::StructLit {
            struct_name: struct_name@,
            field_values: field_values_view(field_values@),
        },
        Rvalue::FieldAccess { base, field_name, field_index } => RvalueView::FieldAccess {
            base,
            field_name: field_name@,
            field_index,
        },
        Rvalue::FieldRef { base, field_name, field_index, mutability } => RvalueView::FieldRef {
            base,
            field_name: field_name@,
            field_index,
            mutability,
        },
        Rvalue::Ref { base, mutability } => RvalueView::Ref { base, mutability },
        Rvalue::ArrayLit { elem_type, elements } => RvalueView::ArrayLit {
            elem_type: elem_type@,
            elements: elements@,
        },
        Rvalue::ArrayIndex { base, index, bounds_check } => RvalueView::ArrayIndex {
            base,
            index,
            bounds_check,
        },
        Rvalue::ArrayLen { base } => RvalueView::ArrayLen { base },
        Rvalue::VecNew { elem_type } => RvalueView::VecNew { elem_type: elem_type@ },
        Rvalue::VecWithCapacity { elem_type, capacity } => RvalueView::VecWithCapacity {
            elem_type: elem_type@,
            capacity,
        },
        Rvalue::VecPush { vec, elem_type, value } => RvalueView::VecPush {
            vec,
            elem_type: elem_type@,
            value,
        },
        Rvalue::VecPop { vec, elem_type } => RvalueView::VecPop { vec, elem_type: elem_type@ },
        Rvalue::VecLen { vec } => RvalueView::VecLen { vec },
        Rvalue::VecIndex { vec, elem_type, index, bounds_check } => RvalueView::VecIndex {
            vec,
            elem_type: elem_type@,
            index,
            bounds_check,
        },
        Rvalue::VecIndexRef { vec, elem_type, index, bounds_check, mutability } => RvalueView::VecIndexRef {
            vec,
            elem_type: elem_type@,
            index,
            bounds_check,
            mutability,
        },
        Rvalue::MapNew { key_type, value_type } => RvalueView::MapNew {
            key_type: key_type@,
            value_type: value_type@,
        },
        Rvalue::MapWithCapacity { key_type, value_type, capacity } => RvalueView::MapWithCapacity {
            key_type: key_type@,
            value_type: value_type@,
            capacity,
        },
        Rvalue::MapAdd { map, key_type, key, value_type, value } => RvalueView::MapAdd {
            map,
            key_type: key_type@,
            key,
            value_type: value_type@,
            value,
        },
        Rvalue::MapUpdate { map, key_type, key, value_type, value } => RvalueView::MapUpdate {
            map,
            key_type: key_type@,
            key,
            value_type: value_type@,
            value,
        },
        Rvalue::MapDel { map, key_type, value_type, key } => RvalueView::MapDel {
            map,
            key_type: key_type@,
            value_type: value_type@,
            key,
        },
        Rvalue::MapGet { map, key_type, value_type, key } => RvalueView::MapGet {
            map,
            key_type: key_type@,
            value_type: value_type@,
            key,
        },
        Rvalue::MapHas { map, key_type, key } => RvalueView::MapHas {
            map,
            key_type: key_type@,
            key,
        },
        Rvalue::MapKeys { map, key_type, value_type } => RvalueView::MapKeys {
            map,
            key_type: key_type@,
            value_type: value_type@,
        },
        Rvalue::MapVals { map, key_type, value_type } => RvalueView::MapVals {
            map,
            key_type: key_type@,
            value_type: value_type@,
        },
        Rvalue::FileOpen { path, create } => RvalueView::FileOpen { path, create },
        Rvalue::FileReadToString { file } => RvalueView::FileReadToString { file },
        Rvalue::FileWriteString { file, contents } => RvalueView::FileWriteString {
            file,
            contents,
        },
        Rvalue::FileClose { file } => RvalueView::FileClose { file },
        Rvalue::StringLen { base } => RvalueView::StringLen { base },
        Rvalue::StringConcat { base, value } => RvalueView::StringConcat { base, value },
        Rvalue::StringSlice { base, start, len } => RvalueView::StringSlice { base, start, len },
        Rvalue::StringTrim { base } => RvalueView::StringTrim { base },
        Rvalue::StringSplit { base, sep } => RvalueView::StringSplit { base, sep },
        Rvalue::StringStartsWith { base, needle } => RvalueView::StringStartsWith { base, needle },
        Rvalue::StringEndsWith { base, needle } => RvalueView::StringEndsWith { base, needle },
        Rvalue::StringClone { base } => RvalueView::StringClone { base },
        Rvalue::OwnNew { value, elem_type } => RvalueView::OwnNew { value, elem_type: elem_type@ },
        Rvalue::OwnIntoRaw { base, elem_type } => RvalueView::OwnIntoRaw {
            base,
            elem_type: elem_type@,
        },
        Rvalue::OwnFromRaw { ptr, elem_type } => RvalueView::OwnFromRaw {
            ptr,
            elem_type: elem_type@,
        },
        Rvalue::RawPtrNull { elem_type } => RvalueView::RawPtrNull { elem_type: elem_type@ },
        Rvalue::SharedNew { value, elem_type } => RvalueView::SharedNew {
            value,
            elem_type: elem_type@,
        },
        Rvalue::SharedClone { base, elem_type } => RvalueView::SharedClone {
            base,
            elem_type: elem_type@,
        },
        Rvalue::ArcNew { value, elem_type } => RvalueView::ArcNew { value, elem_type: elem_type@ },
        Rvalue::ArcClone { base, elem_type } => RvalueView::ArcClone {
            base,
            elem_type: elem_type@,
        },
        Rvalue::ArcBorrow { base, elem_type } => RvalueView::ArcBorrow {
            base,
            elem_type: elem_type@,
        },
        Rvalue::MutexNew { value, elem_type } => RvalueView::MutexNew {
            value,
            elem_type: elem_type@,
        },
        Rvalue::MutexLock { base, elem_type } => RvalueView::MutexLock {
            base,
            elem_type: elem_type@,
        },
        Rvalue::MutexTryLock { base, elem_type } => RvalueView::MutexTryLock {
            base,
            elem_type: elem_type@,
        },
        Rvalue::MutexGuardIsAcquired { guard, elem_type } => RvalueView::MutexGuardIsAcquired {
            guard,
            elem_type: elem_type@,
        },
        Rvalue::MutexGuardBorrow { guard, elem_type } => RvalueView::MutexGuardBorrow {
            guard,
            elem_type: elem_type@,
        },
        Rvalue::SpscChannelNew { capacity, out_receiver, elem_type } => RvalueView::SpscChannelNew {
            capacity,
            out_receiver,
            elem_type: elem_type@,
        },
        Rvalue::SpscTrySend { sender, value, out_unsent, elem_type } => RvalueView::SpscTrySend {
            sender,
            value,
            out_unsent,
            elem_type: elem_type@,
        },
        Rvalue::SpscTryRecv { receiver, out_value, elem_type } => RvalueView::SpscTryRecv {
            receiver,
            out_value,
            elem_type: elem_type@,
        },
        Rvalue::AtomicNew { value, scalar } => RvalueView::AtomicNew { value, scalar },
        Rvalue::AtomicLoad { atomic, scalar, ordering } => RvalueView::AtomicLoad {
            atomic,
            scalar,
            ordering,
        },
        Rvalue::AtomicStore { atomic, value, scalar, ordering } => RvalueView::AtomicStore {
            atomic,
            value,
            scalar,
            ordering,
        },
        Rvalue::AtomicRmw { atomic, value, scalar, op, ordering } => RvalueView::AtomicRmw {
            atomic,
            value,
            scalar,
            op,
            ordering,
        },
        Rvalue::AtomicCompareExchange { atomic, expected, desired, scalar, success, failure } => RvalueView::AtomicCompareExchange {
            atomic,
            expected,
            desired,
            scalar,
            success,
            failure,
        },
        Rvalue::AtomicFence { ordering } => RvalueView::AtomicFence { ordering },
        Rvalue::AtomicIsLockFree { scalar } => RvalueView::AtomicIsLockFree { scalar },
        Rvalue::EnumConstruct { enum_name, variant_index, payload } => RvalueView::EnumConstruct {
            enum_name: enum_name@,
            variant_index,
            payload,
        },
        Rvalue::EnumTag { base } => RvalueView::EnumTag { base },
        Rvalue::EnumPayload { base, variant_index, payload_type } => RvalueView::EnumPayload {
            base,
            variant_index,
            payload_type: payload_type@,
        },
    }
}

impl View for Rvalue {
    type V = RvalueView;

    open spec fn view(&self) -> RvalueView {
        rvalue_view(*self)
    }
}

/// The mathematical model of a [`MirInst`].
pub enum MirInstView {
    Assign { local: LocalId, value: RvalueView },
    AssignField { base: LocalId, field_name: Seq<char>, field_index: u32, value: RvalueView },
    AssignIndex { base: LocalId, index: MirValue, value: RvalueView },
    Return(Option<MirValue>),
    Goto(BlockId),
    If { cond: MirValue, then_bb: BlockId, else_bb: BlockId },
    Drop(LocalId),
    DropThreadHandle(LocalId),
    DropThreadScope(LocalId),
    DrainThreadScope(LocalId),
    DropScopedThreadHandle(LocalId),
    Nop,
}

impl View for MirInst {
    type V = MirInstView;

    open spec fn view(&self) -> MirInstView {
        match self {
            MirInst::Assign { local, value } => MirInstView::Assign {
                local: *local,
                value: value@,
            },
            MirInst::AssignField { base, field_name, field_index, value } => {
                MirInstView::AssignField {
                    base: *base,
                    field_name: field_name@,
                    field_index: *field_index,
                    value: value@,
                }
            },
            MirInst::AssignIndex { base, index, value } => MirInstView::AssignIndex {
                base: *base,
                index: *index,
                value: value@,
            },
            MirInst::Return(value) => MirInstView::Return(*value),
            MirInst::Goto(block) => MirInstView::Goto(*block),
            MirInst::If { cond, then_bb, else_bb } => MirInstView::If {
                cond: *cond,
                then_bb: *then_bb,
                else_bb: *else_bb,
            },
            MirInst::Drop(local) => MirInstView::Drop(*local),
            MirInst::DropThreadHandle(local) => MirInstView::DropThreadHandle(*local),
            MirInst::DropThreadScope(local) => MirInstView::DropThreadScope(*local),
            MirInst::DrainThreadScope(local) => MirInstView::DrainThreadScope(*local),
            MirInst::DropScopedThreadHandle(local) => MirInstView::DropScopedThreadHandle(*local),
            MirInst::Nop => MirInstView::Nop,
        }
    }
}

pub open spec fn insts_view(insts: Seq<MirInst>) -> Seq<MirInstView> {
    Seq::new(insts.len(), |i: int| insts[i]@)
}

pub open spec fn blocks_view(blocks: Seq<MirBlock>) -> Seq<Seq<MirInstView>> {
    Seq::new(blocks.len(), |i: int| insts_view(blocks[i].insts@))
}

/// The mathematical model of a [`MirFunction`].
pub struct MirFunctionView {
    pub name: Seq<char>,
    pub ret_type: Option<TypeView>,
    pub params: Seq<LocalId>,
    pub locals: Seq<LocalView>,
    pub blocks: Seq<Seq<MirInstView>>,
}

impl View for MirFunction {
    type V = MirFunctionView;

    open spec fn view(&self) -> MirFunctionView {
        MirFunctionView {
            name: self.name@,
            ret_type: type_option_view(self.ret_type),
            params: self.params@,
            locals: locals_view(self.locals@),
            blocks: blocks_view(self.blocks@),
        }
    }
}

} // verus!
