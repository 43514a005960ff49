//! Structural `Send` and `Sync` predicates for thread-escaping values.
//!
//! These predicates are compiler policy, not user-implementable interfaces.
//! In particular, policy is selected by resolver-issued identities rather than
//! source-spellable names: declaring a user type called `Arc` or `Mutex` must
//! not acquire the standard library type's special rules.

use std::collections::HashMap;
use std::hash::Hash;

use vstd::prelude::*;
use vstd::std_specs::hash::obeys_key_model;

use crate::table::{has_key, key_position, value_of, NameMap};
use crate::text::{concat2, concat3, concat4, concat5, decimal, decimal_text, same_text};
use crate::thread_safety_laws::{
    extensions_keep_all_verdicts, policy_built_from, registrations_keep_a_registry_closed,
};
use crate::types::{types_view, EnumType, EnumVariant, StructType, Type, TypeView};

verus! {

#[derive(Debug, Clone, Copy, PartialEq, Eq, Hash, Structural)]
pub enum ThreadSafetyRequirement {
    Send,
    Sync,
}

impl ThreadSafetyRequirement {
    pub open spec fn name(self) -> Seq<char> {
        match self {
            ThreadSafetyRequirement::Send => "Send"@,
            ThreadSafetyRequirement::Sync => "Sync"@,
        }
    }

    pub fn label(self) -> (label: &'static str)
        ensures
            label@ == self.name(),
    {
        match self {
            ThreadSafetyRequirement::Send => "Send",
            ThreadSafetyRequirement::Sync => "Sync",
        }
    }
}

/// One compiler rule in the chain that led to a thread-safety failure.
#[derive(Debug, PartialEq, Eq)]
pub struct ThreadSafetyConstraint {
    pub path: String,
    pub requirement: ThreadSafetyRequirement,
    pub rule: String,
}

pub struct ConstraintView {
    pub path: Seq<char>,
    pub requirement: ThreadSafetyRequirement,
    pub rule: Seq<char>,
}

impl View for ThreadSafetyConstraint {
    type V = ConstraintView;

    open spec fn view(&self) -> ConstraintView {
        ConstraintView { path: self.path@, requirement: self.requirement, rule: self.rule@ }
    }
}

impl Clone for ThreadSafetyConstraint {
    fn clone(&self) -> (copy: ThreadSafetyConstraint)
        ensures
            copy@ == self@,
    {
        ThreadSafetyConstraint {
            path: self.path.clone(),
            requirement: self.requirement,
            rule: self.rule.clone(),
        }
    }
}

pub open spec fn trace_view(trace: Seq<ThreadSafetyConstraint>) -> Seq<ConstraintView> {
    Seq::new(trace.len(), |i: int| trace[i]@)
}

#[derive(Debug, Clone, PartialEq, Eq)]
pub struct ThreadSafetyError {
    pub requirement: ThreadSafetyRequirement,
    /// Source-oriented path such as `task.state.shared` or `result::Err[0]`.
    pub path: String,
    pub reason: String,
    /// Outermost-to-innermost compiler constraints that selected the failing
    /// requirement. This makes `Arc<T>: Send` failures explain the additional
    /// `T: Sync` obligation instead of reporting only a leaf type.
    pub constraint_trace: Vec<ThreadSafetyConstraint>,
}

pub struct ThreadSafetyErrorView {
    pub requirement: ThreadSafetyRequirement,
    pub path: Seq<char>,
    pub reason: Seq<char>,
    pub constraint_trace: Seq<ConstraintView>,
}

impl View for ThreadSafetyError {
    type V = ThreadSafetyErrorView;

    open spec fn view(&self) -> ThreadSafetyErrorView {
        ThreadSafetyErrorView {
            requirement: self.requirement,
            path: self.path@,
            reason: self.reason@,
            constraint_trace: trace_view(self.constraint_trace@),
        }
    }
}

/// The outcome of a check in terms of what the error says.
pub type Verdict = Result<(), ThreadSafetyErrorView>;

pub open spec fn verdict_view(verdict: Result<(), ThreadSafetyError>) -> Verdict {
    match verdict {
        Ok(()) => Ok(()),
        Err(error) => Err(error@),
    }
}

/// The lines that explain a constraint trace from position `i` on, after `text`.
pub open spec fn explained_from(
    text: Seq<char>,
    trace: Seq<ConstraintView>,
    i: int,
) -> Seq<char>
    decreases trace.len() - i,
{
    if i < 0 || i >= trace.len() {
        text
    } else {
        explained_from(
            text + "\n  required by "@ + trace[i].rule + " at `"@ + trace[i].path + "` ("@
                + trace[i].requirement.name() + ")"@,
            trace,
            i + 1,
        )
    }
}

impl ThreadSafetyErrorView {
    /// The rendered error: the failing path with its reason, then one line for
    /// each constraint.
    pub open spec fn text(self) -> Seq<char> {
        explained_from(
            "`"@ + self.path + "` is not "@ + self.requirement.name() + ": "@ + self.reason,
            self.constraint_trace,
            0,
        )
    }
}

impl ThreadSafetyError {
    /// Renders the error for a diagnostic.
    pub fn message(&self) -> (text: String)
        ensures
            text@ == self@.text(),
    {
        let mut text = concat5(
            "`",
            self.path.as_str(),
            "` is not ",
            self.requirement.label(),
            ": ",
        );
        text.append(self.reason.as_str());
        let ghost trace = trace_view(self.constraint_trace@);
        let mut i: usize = 0;
        while i < self.constraint_trace.len()
            invariant
                i <= self.constraint_trace.len(),
                trace == trace_view(self.constraint_trace@),
                explained_from(text@, trace, i as int) == self@.text(),
            decreases self.constraint_trace.len() - i,
        {
            let constraint = &self.constraint_trace[i];
            assert(trace[i as int] == constraint@);
            text.append("\n  required by ");
            text.append(constraint.rule.as_str());
            text.append(" at `");
            text.append(constraint.path.as_str());
            text.append("` (");
            text.append(constraint.requirement.label());
            text.append(")");
            i += 1;
        }
        text
    }
}

/// Opaque identity for a compiler-resolved generic constructor.
///
/// Only a `ThreadSafetyRegistry` can issue one. The frontend should retain the
/// identity produced while resolving the canonical stdlib declaration and attach
/// it to the corresponding [`ThreadSafetyType::Application`].
#[derive(Debug, Clone, Copy, PartialEq, Eq, Hash, Structural)]
pub struct CanonicalConstructorId {
    identity_space: u64,
    slot: u32,
}

impl CanonicalConstructorId {
    /// The registry that issued the identity.
    pub closed spec fn space(self) -> u64 {
        self.identity_space
    }

    /// The position of the registered constructor in that registry.
    pub closed spec fn position(self) -> int {
        self.slot as int
    }

    /// The identity that a registry issues for its entry at a position.
    pub closed spec fn issued(space: u64, position: int) -> CanonicalConstructorId {
        CanonicalConstructorId { identity_space: space, slot: position as u32 }
    }
}

/// Opaque identity for a compiler-resolved nominal type.
#[derive(Debug, Clone, Copy, PartialEq, Eq, Hash, Structural)]
pub struct CanonicalNominalId {
    identity_space: u64,
    slot: u32,
}

impl CanonicalNominalId {
    /// The registry that issued the identity.
    pub closed spec fn space(self) -> u64 {
        self.identity_space
    }

    /// The position of the registered type in that registry.
    pub closed spec fn position(self) -> int {
        self.slot as int
    }

    /// The identity that a registry issues for its entry at a position.
    pub closed spec fn issued(space: u64, position: int) -> CanonicalNominalId {
        CanonicalNominalId { identity_space: space, slot: position as u32 }
    }
}

/// Thread-safety rule for one canonical generic constructor.
#[derive(Debug, Clone, PartialEq, Eq)]
pub enum CanonicalApplicationPolicy {
    Vec,
    KeyedMap,
    Option,
    Result,
    Arc,
    Mutex,
    JoinHandle,
    Sender,
    Receiver,
    /// A compiler/runtime type that must never cross a thread boundary.
    Deny { arity: usize, reason: String },
    /// An opaque compiler/runtime type whose implementation has been audited.
    Audited { arity: usize, send: bool, sync: bool, reason: String },
}

/// Thread-safety rule for one canonical nominal type.
#[derive(Debug, Clone, PartialEq, Eq)]
pub enum NominalThreadSafetyPolicy {
    /// Evaluate the already-monomorphized fields in `struct_types`.
    StructuralStruct { definition: String },
    /// Evaluate the already-monomorphized variants in `enum_types`.
    StructuralEnum { definition: String },
    /// Evaluate a resolver-produced, fully substituted generic struct layout.
    /// These fields retain canonical identities for nested compiler-known
    /// applications such as `Arc<T>` and `Vec<T>`.
    MonomorphicStruct { fields: Vec<(String, ThreadSafetyType)> },
    /// Evaluate a resolver-produced, fully substituted generic enum layout.
    MonomorphicEnum { variants: Vec<(String, Option<ThreadSafetyType>)> },
    /// Runtime handles are denied unless their implementation has an explicit
    /// audited policy.
    Deny { reason: String },
    Audited { send: bool, sync: bool, reason: String },
}

#[derive(Debug, Clone, PartialEq, Eq)]
struct ConstructorEntry {
    display_name: String,
    policy: CanonicalApplicationPolicy,
}

#[derive(Debug, Clone, PartialEq, Eq)]
struct NominalEntry {
    display_name: String,
    policy: NominalThreadSafetyPolicy,
}

/// Capture-level provenance retained for an owned callable.
#[derive(Debug, PartialEq, Eq)]
pub struct CallableCaptureProvenance {
    pub name: String,
    pub ty: ThreadSafetyType,
}

/// Provenance needed to decide whether an erased `FnOnce` value is `Send`.
///
/// The ordinary `Type::Function` signature intentionally does not contain an
/// environment layout. Closure analysis creates `OwnedClosure`; function-item
/// coercion creates `FunctionItem`. `Unknown` is fail-closed for values loaded
/// without compiler provenance.
#[derive(Debug, PartialEq, Eq)]
pub enum CallableSendProvenance {
    FunctionItem { symbol: String },
    OwnedClosure { origin: String, captures: Vec<CallableCaptureProvenance> },
    Unknown { reason: String },
}

/// A type plus the compiler provenance needed for special thread-safety rules.
///
/// Plain structural types remain represented by [`Type`]. Generic intrinsics,
/// runtime handles, and callables must use the resolved variants so source
/// spelling alone cannot select compiler privilege.
#[derive(Debug, PartialEq, Eq)]
pub enum ThreadSafetyType {
    Plain(Type),
    Own(Box<ThreadSafetyType>),
    Array { element: Box<ThreadSafetyType>, len: usize },
    Tuple(Vec<ThreadSafetyType>),
    Application { constructor: CanonicalConstructorId, args: Vec<ThreadSafetyType> },
    Nominal(CanonicalNominalId),
    Callable { signature: Type, provenance: CallableSendProvenance },
}

/// The mathematical model of a [`CallableCaptureProvenance`].
pub struct CaptureProvenanceView {
    pub name: Seq<char>,
    pub ty: ThreadSafetyTypeView,
}

/// The mathematical model of a [`CallableSendProvenance`].
pub enum SendProvenanceView {
    FunctionItem { symbol: Seq<char> },
    OwnedClosure { origin: Seq<char>, captures: Seq<CaptureProvenanceView> },
    Unknown { reason: Seq<char> },
}

/// The mathematical model of a [`ThreadSafetyType`].
pub enum ThreadSafetyTypeView {
    Plain(TypeView),
    Own(Box<ThreadSafetyTypeView>),
    Array { element: Box<ThreadSafetyTypeView>, len: usize },
    Tuple(Seq<ThreadSafetyTypeView>),
    Application { constructor: CanonicalConstructorId, args: Seq<ThreadSafetyTypeView> },
    Nominal(CanonicalNominalId),
    Callable { signature: TypeView, provenance: SendProvenanceView },
}

pub open spec fn safety_type_view(ty: ThreadSafetyType) -> ThreadSafetyTypeView
    decreases ty,
{
    match ty {
        ThreadSafetyType::Plain(ty) => ThreadSafetyTypeView::Plain(ty@),
        ThreadSafetyType::Own(inner) => ThreadSafetyTypeView::Own(
            Box::new(safety_type_view(*inner)),
        ),
        ThreadSafetyType::Array { element, len } => ThreadSafetyTypeView::Array {
            element: Box::new(safety_type_view(*element)),
            len,
        },
        ThreadSafetyType::Tuple(elements) => ThreadSafetyTypeView::Tuple(
            safety_types_view(elements@),
        ),
        ThreadSafetyType::Application { constructor, args } => ThreadSafetyTypeView::Application {
            constructor,
            args: safety_types_view(args@),
        },
        ThreadSafetyType::Nominal(identity) => ThreadSafetyTypeView::Nominal(identity),
        ThreadSafetyType::Callable { signature, provenance } => ThreadSafetyTypeView::Callable {
            signature: signature@,
            provenance: provenance_view(provenance),
        },
    }
}

pub open spec fn safety_types_view(types: Seq<ThreadSafetyType>) -> Seq<ThreadSafetyTypeView>
    decreases types,
{
    Seq::new(
        types.len(),
        |i: int|
            if 0 <= i < types.len() {
                safety_type_view(types[i])
            } else {
                arbitrary()
            },
    )
}

pub open spec fn provenance_view(provenance: CallableSendProvenance) -> SendProvenanceView
    decreases provenance,
{
    match provenance {
        CallableSendProvenance::FunctionItem { symbol } => SendProvenanceView::FunctionItem {
            symbol: symbol@,
        },
        CallableSendProvenance::OwnedClosure { origin, captures } => {
            SendProvenanceView::OwnedClosure {
                origin: origin@,
                captures: captures_view(captures@),
            }
        },
        CallableSendProvenance::Unknown { reason } => SendProvenanceView::Unknown {
            reason: reason@,
        },
    }
}

pub open spec fn captures_view(captures: Seq<CallableCaptureProvenance>) -> Seq<
    CaptureProvenanceView,
>
    decreases captures,
{
    Seq::new(
        captures.len(),
        |i: int|
            if 0 <= i < captures.len() {
                capture_view(captures[i])
            } else {
                arbitrary()
            },
    )
}

pub open spec fn capture_view(capture: CallableCaptureProvenance) -> CaptureProvenanceView
    decreases capture,
{
    CaptureProvenanceView { name: capture.name@, ty: safety_type_view(capture.ty) }
}

impl View for ThreadSafetyType {
    type V = ThreadSafetyTypeView;

    open spec fn view(&self) -> ThreadSafetyTypeView {
        safety_type_view(*self)
    }
}

impl View for CallableSendProvenance {
    type V = SendProvenanceView;

    open spec fn view(&self) -> SendProvenanceView {
        provenance_view(*self)
    }
}

impl View for CallableCaptureProvenance {
    type V = CaptureProvenanceView;

    open spec fn view(&self) -> CaptureProvenanceView {
        capture_view(*self)
    }
}

impl Clone for ThreadSafetyType {
    fn clone(&self) -> (copy: ThreadSafetyType)
        ensures
            copy@ == self@,
        decreases self,
    {
        match self {
            ThreadSafetyType::Plain(ty) => ThreadSafetyType::Plain(ty.clone()),
            ThreadSafetyType::Own(inner) => ThreadSafetyType::Own(Box::new((**inner).clone())),
            ThreadSafetyType::Array { element, len } => ThreadSafetyType::Array {
                element: Box::new((**element).clone()),
                len: *len,
            },
            ThreadSafetyType::Tuple(elements) => ThreadSafetyType::Tuple(
                clone_safety_types(elements),
            ),
            ThreadSafetyType::Application { constructor, args } => ThreadSafetyType::Application {
                constructor: *constructor,
                args: clone_safety_types(args),
            },
            ThreadSafetyType::Nominal(identity) => ThreadSafetyType::Nominal(*identity),
            ThreadSafetyType::Callable { signature, provenance } => ThreadSafetyType::Callable {
                signature: signature.clone(),
                provenance: provenance.clone(),
            },
        }
    }
}

fn clone_safety_types(types: &Vec<ThreadSafetyType>) -> (copy: Vec<ThreadSafetyType>)
    ensures
        safety_types_view(copy@) == safety_types_view(types@),
    decreases types,
{
    let mut copy: Vec<ThreadSafetyType> = Vec::new();
    let mut i: usize = 0;
    while i < types.len()
        invariant
            i <= types.len(),
            copy.len() == i,
            forall|j: int| 0 <= j < i ==> (#[trigger] copy[j])@ == types[j]@,
        decreases types.len() - i,
    {
        copy.push(types[i].clone());
        i += 1;
    }
    assert(safety_types_view(copy@) =~= safety_types_view(types@));
    copy
}

impl Clone for CallableSendProvenance {
    fn clone(&self) -> (copy: CallableSendProvenance)
        ensures
            copy@ == self@,
        decreases self,
    {
        match self {
            CallableSendProvenance::FunctionItem { symbol } => {
                CallableSendProvenance::FunctionItem { symbol: symbol.clone() }
            },
            CallableSendProvenance::OwnedClosure { origin, captures } => {
                CallableSendProvenance::OwnedClosure {
                    origin: origin.clone(),
                    captures: clone_captures(captures),
                }
            },
            CallableSendProvenance::Unknown { reason } => CallableSendProvenance::Unknown {
                reason: reason.clone(),
            },
        }
    }
}

fn clone_captures(captures: &Vec<CallableCaptureProvenance>) -> (copy: Vec<
    CallableCaptureProvenance,
>)
    ensures
        captures_view(copy@) == captures_view(captures@),
    decreases captures,
{
    let mut copy: Vec<CallableCaptureProvenance> = Vec::new();
    let mut i: usize = 0;
    while i < captures.len()
        invariant
            i <= captures.len(),
            copy.len() == i,
            forall|j: int| 0 <= j < i ==> (#[trigger] copy[j])@ == captures[j]@,
        decreases captures.len() - i,
    {
        copy.push(captures[i].clone());
        i += 1;
    }
    assert(captures_view(copy@) =~= captures_view(captures@));
    copy
}

impl Clone for CallableCaptureProvenance {
    fn clone(&self) -> (copy: CallableCaptureProvenance)
        ensures
            copy@ == self@,
        decreases self,
    {
        CallableCaptureProvenance { name: self.name.clone(), ty: self.ty.clone() }
    }
}

impl CallableCaptureProvenance {
    pub fn new(name: &str, ty: ThreadSafetyType) -> (capture: CallableCaptureProvenance)
        ensures
            capture@ == (CaptureProvenanceView { name: name@, ty: ty@ }),
    {
        CallableCaptureProvenance { name: name.to_owned(), ty }
    }
}

impl ThreadSafetyType {
    pub fn plain(ty: Type) -> (safety: ThreadSafetyType)
        ensures
            safety@ == ThreadSafetyTypeView::Plain(ty@),
    {
        ThreadSafetyType::Plain(ty)
    }

    pub fn application(constructor: CanonicalConstructorId, args: Vec<ThreadSafetyType>) -> (safety:
        ThreadSafetyType)
        ensures
            safety@ == (ThreadSafetyTypeView::Application {
                constructor,
                args: safety_types_view(args@),
            }),
    {
        ThreadSafetyType::Application { constructor, args }
    }

    pub fn own(inner: ThreadSafetyType) -> (safety: ThreadSafetyType)
        ensures
            safety@ == ThreadSafetyTypeView::Own(Box::new(inner@)),
    {
        ThreadSafetyType::Own(Box::new(inner))
    }

    pub fn array(element: ThreadSafetyType, len: usize) -> (safety: ThreadSafetyType)
        ensures
            safety@ == (ThreadSafetyTypeView::Array { element: Box::new(element@), len }),
    {
        ThreadSafetyType::Array { element: Box::new(element), len }
    }

    pub fn tuple(elements: Vec<ThreadSafetyType>) -> (safety: ThreadSafetyType)
        ensures
            safety@ == ThreadSafetyTypeView::Tuple(safety_types_view(elements@)),
    {
        ThreadSafetyType::Tuple(elements)
    }

    pub fn nominal(identity: CanonicalNominalId) -> (safety: ThreadSafetyType)
        ensures
            safety@ == ThreadSafetyTypeView::Nominal(identity),
    {
        ThreadSafetyType::Nominal(identity)
    }

    pub fn callable(signature: Type, provenance: CallableSendProvenance) -> (safety:
        ThreadSafetyType)
        ensures
            safety@ == (ThreadSafetyTypeView::Callable {
                signature: signature@,
                provenance: provenance@,
            }),
    {
        ThreadSafetyType::Callable { signature, provenance }
    }
}

impl From<Type> for ThreadSafetyType {
    fn from(value: Type) -> (safety: ThreadSafetyType) {
        ThreadSafetyType::Plain(value)
    }
}

impl vstd::std_specs::convert::FromSpecImpl<Type> for ThreadSafetyType {
    open spec fn obeys_from_spec() -> bool {
        true
    }

    open spec fn from_spec(value: Type) -> ThreadSafetyType {
        ThreadSafetyType::Plain(value)
    }
}

/// Compatibility/input adapter for thread-safety checks.
///
/// Passing a bare [`Type`] remains supported for ordinary structural types, but
/// fails closed for applications and callables that need provenance.
pub trait ThreadSafetyCheckInput {
    /// The type that is checked.
    spec fn checked_type(&self) -> ThreadSafetyTypeView;

    fn to_thread_safety_type(&self) -> (safety: ThreadSafetyType)
        ensures
            safety@ == self.checked_type(),
    ;
}

impl ThreadSafetyCheckInput for Type {
    open spec fn checked_type(&self) -> ThreadSafetyTypeView {
        ThreadSafetyTypeView::Plain(self@)
    }

    fn to_thread_safety_type(&self) -> (safety: ThreadSafetyType) {
        ThreadSafetyType::Plain(self.clone())
    }
}

impl ThreadSafetyCheckInput for ThreadSafetyType {
    open spec fn checked_type(&self) -> ThreadSafetyTypeView {
        self@
    }

    fn to_thread_safety_type(&self) -> (safety: ThreadSafetyType) {
        self.clone()
    }
}


/// A definition under examination: whether it is an enum, and its name.
pub struct VisitKey {
    pub is_enum: bool,
    pub name: String,
}

pub open spec fn visits(visiting: Seq<VisitKey>) -> Seq<(bool, Seq<char>)> {
    Seq::new(visiting.len(), |i: int| (visiting[i].is_enum, visiting[i].name@))
}

/// The structural definitions that checks look up by name.
pub struct DefinitionsView {
    pub structs: Seq<(Seq<char>, StructType)>,
    pub enums: Seq<(Seq<char>, EnumType)>,
}

/// How many entries from position `i` on have a name that is not under
/// examination.
pub open spec fn unvisited_from<W>(
    entries: Seq<(Seq<char>, W)>,
    is_enum: bool,
    visiting: Seq<(bool, Seq<char>)>,
    i: int,
) -> nat
    decreases entries.len() - i,
{
    if i < 0 || i >= entries.len() {
        0
    } else {
        let rest = unvisited_from(entries, is_enum, visiting, i + 1);
        if visiting.contains((is_enum, entries[i].0)) {
            rest
        } else {
            rest + 1
        }
    }
}

/// How many definitions are not under examination.
pub open spec fn unvisited(defs: DefinitionsView, visiting: Seq<(bool, Seq<char>)>) -> nat {
    unvisited_from(defs.structs, false, visiting, 0) + unvisited_from(
        defs.enums,
        true,
        visiting,
        0,
    )
}

proof fn entering_leaves_fewer_entries<W>(
    entries: Seq<(Seq<char>, W)>,
    is_enum: bool,
    visiting: Seq<(bool, Seq<char>)>,
    key: (bool, Seq<char>),
    i: int,
)
    requires
        0 <= i,
    ensures
        unvisited_from(entries, is_enum, visiting.push(key), i) <= unvisited_from(
            entries,
            is_enum,
            visiting,
            i,
        ),
        key.0 == is_enum && !visiting.contains(key) && key_position(entries, key.1, i) is Some
            ==> unvisited_from(entries, is_enum, visiting.push(key), i) < unvisited_from(
            entries,
            is_enum,
            visiting,
            i,
        ),
    decreases entries.len() - i,
{
    if i < entries.len() {
        entering_leaves_fewer_entries(entries, is_enum, visiting, key, i + 1);
        let entered = visiting.push(key);
        let here = (is_enum, entries[i].0);
        if visiting.contains(here) {
            let k = visiting.index_of(here);
            assert(entered[k] == here);
        }
        if here == key {
            assert(entered[visiting.len() as int] == here);
        }
        if entered.contains(here) && !visiting.contains(here) {
            let k = entered.index_of(here);
            assert(k == visiting.len());
            assert(here == key);
        }
    }
}

/// Examining a definition leaves fewer definitions to examine, so that checks of
/// recursive types end.
pub proof fn entering_a_definition_leaves_fewer(
    defs: DefinitionsView,
    visiting: Seq<(bool, Seq<char>)>,
    key: (bool, Seq<char>),
)
    ensures
        !visiting.contains(key) && (if key.0 {
            has_key(defs.enums, key.1)
        } else {
            has_key(defs.structs, key.1)
        }) ==> unvisited(defs, visiting.push(key)) < unvisited(defs, visiting),
{
    entering_leaves_fewer_entries(defs.structs, false, visiting, key, 0);
    entering_leaves_fewer_entries(defs.enums, true, visiting, key, 0);
}

/// The rejection of a value at `path`.
pub open spec fn rejection(
    requirement: ThreadSafetyRequirement,
    path: Seq<char>,
    reason: Seq<char>,
    trace: Seq<ConstraintView>,
) -> Verdict {
    Err(ThreadSafetyErrorView { requirement, path, reason, constraint_trace: trace })
}

/// Why a structural type without parts is rejected, if it is.
pub open spec fn plain_leaf_problem(ty: TypeView) -> Option<Seq<char>> {
    match ty {
        TypeView::Str => Some("borrowed `str` may not escape to a thread"@),
        TypeView::Ref(..) => Some("borrowed references may not escape to a thread"@),
        TypeView::RawPtr(..) => Some(
            "raw pointers have no compiler-verifiable ownership protocol"@,
        ),
        TypeView::Shared(..) => Some("`Shared<T>` is not synchronized and cannot cross threads"@),
        TypeView::Param(name) => Some(
            "generic parameter `"@ + name
                + "` was not resolved before thread-safety checking"@,
        ),
        TypeView::Function { .. } => Some(
            "callable environment provenance was lost before thread-safety checking"@,
        ),
        TypeView::BorrowedFunction { .. } => Some(
            "borrowed callable environments cannot escape to an unscoped thread"@,
        ),
        TypeView::App { base, .. } => Some(
            "generic type `"@ + base
                + "` has no canonical resolver identity; source spelling cannot select compiler thread-safety policy"@,
        ),
        _ => None,
    }
}

/// The verdict on a structural type. Parts are examined in order and the first
/// rejected part decides; a definition that is already under examination is
/// taken to be safe.
pub open spec fn plain_verdict(
    defs: DefinitionsView,
    ty: TypeView,
    requirement: ThreadSafetyRequirement,
    path: Seq<char>,
    visiting: Seq<(bool, Seq<char>)>,
    trace: Seq<ConstraintView>,
) -> Verdict
    decreases unvisited(defs, visiting), 1nat, ty, 0nat,
{
    match ty {
        TypeView::Own(inner) => plain_verdict(defs, *inner, requirement, path, visiting, trace),
        TypeView::Array(inner, _) => plain_verdict(
            defs,
            *inner,
            requirement,
            path + "[]"@,
            visiting,
            trace,
        ),
        TypeView::Tuple(elements) => plain_elements_from(
            defs,
            elements,
            0,
            requirement,
            path,
            visiting,
            trace,
        ),
        TypeView::Named(name) => struct_verdict(defs, name, requirement, path, visiting, trace),
        TypeView::Enum(name) => enum_verdict(defs, name, requirement, path, visiting, trace),
        _ => match plain_leaf_problem(ty) {
            Some(reason) => rejection(requirement, path, reason, trace),
            None => Ok(()),
        },
    }
}

/// The verdict on the elements of a tuple from position `i` on.
pub open spec fn plain_elements_from(
    defs: DefinitionsView,
    elements: Seq<TypeView>,
    i: nat,
    requirement: ThreadSafetyRequirement,
    path: Seq<char>,
    visiting: Seq<(bool, Seq<char>)>,
    trace: Seq<ConstraintView>,
) -> Verdict
    decreases unvisited(defs, visiting), 1nat, elements, elements.len() - i,
{
    if i >= elements.len() {
        Ok(())
    } else {
        match plain_verdict(
            defs,
            elements[i as int],
            requirement,
            path + "["@ + decimal_text(i) + "]"@,
            visiting,
            trace,
        ) {
            Ok(()) => plain_elements_from(
                defs,
                elements,
                i + 1,
                requirement,
                path,
                visiting,
                trace,
            ),
            Err(error) => Err(error),
        }
    }
}

/// The verdict on the struct called `name`.
pub open spec fn struct_verdict(
    defs: DefinitionsView,
    name: Seq<char>,
    requirement: ThreadSafetyRequirement,
    path: Seq<char>,
    visiting: Seq<(bool, Seq<char>)>,
    trace: Seq<ConstraintView>,
) -> Verdict
    decreases unvisited(defs, visiting), 0nat, name, 0nat,
{
    proof {
        entering_a_definition_leaves_fewer(defs, visiting, (false, name));
    }
    match value_of(defs.structs, name) {
        None => rejection(
            requirement,
            path,
            "type `"@ + name + "` has no structural thread-safety definition"@,
            trace,
        ),
        Some(definition) => if visiting.contains((false, name)) {
            Ok(())
        } else {
            fields_from(
                defs,
                definition.fields@,
                0,
                requirement,
                path,
                visiting.push((false, name)),
                trace,
            )
        },
    }
}

/// The verdict on the fields of a struct from position `i` on.
pub open spec fn fields_from(
    defs: DefinitionsView,
    fields: Seq<(String, Type)>,
    i: int,
    requirement: ThreadSafetyRequirement,
    path: Seq<char>,
    visiting: Seq<(bool, Seq<char>)>,
    trace: Seq<ConstraintView>,
) -> Verdict
    decreases unvisited(defs, visiting), 2nat, fields, fields.len() - i,
{
    if i < 0 || i >= fields.len() {
        Ok(())
    } else {
        match plain_verdict(
            defs,
            fields[i].1@,
            requirement,
            path + "."@ + fields[i].0@,
            visiting,
            trace,
        ) {
            Ok(()) => fields_from(defs, fields, i + 1, requirement, path, visiting, trace),
            Err(error) => Err(error),
        }
    }
}

/// The verdict on the enum called `name`.
pub open spec fn enum_verdict(
    defs: DefinitionsView,
    name: Seq<char>,
    requirement: ThreadSafetyRequirement,
    path: Seq<char>,
    visiting: Seq<(bool, Seq<char>)>,
    trace: Seq<ConstraintView>,
) -> Verdict
    decreases unvisited(defs, visiting), 0nat, name, 0nat,
{
    proof {
        entering_a_definition_leaves_fewer(defs, visiting, (true, name));
    }
    match value_of(defs.enums, name) {
        None => rejection(
            requirement,
            path,
            "enum `"@ + name + "` has no structural thread-safety definition"@,
            trace,
        ),
        Some(definition) => if visiting.contains((true, name)) {
            Ok(())
        } else {
            variants_from(
                defs,
                definition.variants@,
                0,
                requirement,
                path,
                visiting.push((true, name)),
                trace,
            )
        },
    }
}

/// The verdict on the payloads of an enum's variants from position `i` on.
pub open spec fn variants_from(
    defs: DefinitionsView,
    variants: Seq<EnumVariant>,
    i: int,
    requirement: ThreadSafetyRequirement,
    path: Seq<char>,
    visiting: Seq<(bool, Seq<char>)>,
    trace: Seq<ConstraintView>,
) -> Verdict
    decreases unvisited(defs, visiting), 2nat, variants, variants.len() - i,
{
    if i < 0 || i >= variants.len() {
        Ok(())
    } else {
        let verdict = match variants[i].payload {
            Some(payload) => plain_verdict(
                defs,
                payload@,
                requirement,
                path + "::"@ + variants[i].name@,
                visiting,
                trace,
            ),
            None => Ok(()),
        };
        match verdict {
            Ok(()) => variants_from(defs, variants, i + 1, requirement, path, visiting, trace),
            Err(error) => Err(error),
        }
    }
}

/// One thing that a canonical generic type asks of a type argument.
pub struct Obligation {
    pub index: usize,
    pub requirement: ThreadSafetyRequirement,
    /// What is added to the path of the application.
    pub suffix: &'static str,
    pub rule: String,
}

pub struct ObligationView {
    pub index: int,
    pub requirement: ThreadSafetyRequirement,
    pub suffix: Seq<char>,
    pub rule: Seq<char>,
}

impl View for Obligation {
    type V = ObligationView;

    open spec fn view(&self) -> ObligationView {
        ObligationView {
            index: self.index as int,
            requirement: self.requirement,
            suffix: self.suffix@,
            rule: self.rule@,
        }
    }
}

/// What a policy says of one application.
pub enum ApplicationRule {
    Denied(String),
    Requires(Vec<Obligation>),
}

pub enum ApplicationRuleView {
    Denied(Seq<char>),
    Requires(Seq<ObligationView>),
}

impl View for ApplicationRule {
    type V = ApplicationRuleView;

    open spec fn view(&self) -> ApplicationRuleView {
        match self {
            ApplicationRule::Denied(reason) => ApplicationRuleView::Denied(reason@),
            ApplicationRule::Requires(obligations) => ApplicationRuleView::Requires(
                Seq::new(obligations@.len(), |i: int| obligations@[i]@),
            ),
        }
    }
}

/// The mathematical model of a [`CanonicalApplicationPolicy`].
pub enum ApplicationPolicyView {
    Vec,
    KeyedMap,
    Option,
    Result,
    Arc,
    Mutex,
    JoinHandle,
    Sender,
    Receiver,
    Deny { arity: usize, reason: Seq<char> },
    Audited { arity: usize, send: bool, sync: bool, reason: Seq<char> },
}

impl View for CanonicalApplicationPolicy {
    type V = ApplicationPolicyView;

    open spec fn view(&self) -> ApplicationPolicyView {
        match *self {
            CanonicalApplicationPolicy::Vec => ApplicationPolicyView::Vec,
            CanonicalApplicationPolicy::KeyedMap => ApplicationPolicyView::KeyedMap,
            CanonicalApplicationPolicy::Option => ApplicationPolicyView::Option,
            CanonicalApplicationPolicy::Result => ApplicationPolicyView::Result,
            CanonicalApplicationPolicy::Arc => ApplicationPolicyView::Arc,
            CanonicalApplicationPolicy::Mutex => ApplicationPolicyView::Mutex,
            CanonicalApplicationPolicy::JoinHandle => ApplicationPolicyView::JoinHandle,
            CanonicalApplicationPolicy::Sender => ApplicationPolicyView::Sender,
            CanonicalApplicationPolicy::Receiver => ApplicationPolicyView::Receiver,
            CanonicalApplicationPolicy::Deny { arity, reason } => ApplicationPolicyView::Deny {
                arity,
                reason: reason@,
            },
            CanonicalApplicationPolicy::Audited { arity, send, sync, reason } => {
                ApplicationPolicyView::Audited { arity, send, sync, reason: reason@ }
            },
        }
    }
}

/// The mathematical model of a [`NominalThreadSafetyPolicy`].
pub enum NominalPolicyView {
    StructuralStruct { definition: Seq<char> },
    StructuralEnum { definition: Seq<char> },
    MonomorphicStruct { fields: Seq<(Seq<char>, ThreadSafetyTypeView)> },
    MonomorphicEnum { variants: Seq<(Seq<char>, Option<ThreadSafetyTypeView>)> },
    Deny { reason: Seq<char> },
    Audited { send: bool, sync: bool, reason: Seq<char> },
}

pub open spec fn safety_option_view(ty: Option<ThreadSafetyType>) -> Option<ThreadSafetyTypeView> {
    match ty {
        Some(ty) => Some(ty@),
        None => None,
    }
}

pub open spec fn safety_fields_view(fields: Seq<(String, ThreadSafetyType)>) -> Seq<
    (Seq<char>, ThreadSafetyTypeView),
> {
    Seq::new(fields.len(), |i: int| (fields[i].0@, fields[i].1@))
}

pub open spec fn safety_variants_view(variants: Seq<(String, Option<ThreadSafetyType>)>) -> Seq<
    (Seq<char>, Option<ThreadSafetyTypeView>),
> {
    Seq::new(variants.len(), |i: int| (variants[i].0@, safety_option_view(variants[i].1)))
}

impl View for NominalThreadSafetyPolicy {
    type V = NominalPolicyView;

    open spec fn view(&self) -> NominalPolicyView {
        match *self {
            NominalThreadSafetyPolicy::StructuralStruct { definition } => {
                NominalPolicyView::StructuralStruct { definition: definition@ }
            },
            NominalThreadSafetyPolicy::StructuralEnum { definition } => {
                NominalPolicyView::StructuralEnum { definition: definition@ }
            },
            NominalThreadSafetyPolicy::MonomorphicStruct { fields } => {
                NominalPolicyView::MonomorphicStruct { fields: safety_fields_view(fields@) }
            },
            NominalThreadSafetyPolicy::MonomorphicEnum { variants } => {
                NominalPolicyView::MonomorphicEnum { variants: safety_variants_view(variants@) }
            },
            NominalThreadSafetyPolicy::Deny { reason } => NominalPolicyView::Deny {
                reason: reason@,
            },
            NominalThreadSafetyPolicy::Audited { send, sync, reason } => {
                NominalPolicyView::Audited { send, sync, reason: reason@ }
            },
        }
    }
}

impl ApplicationPolicyView {
    /// How many type arguments the constructor takes.
    pub open spec fn arity(self) -> nat {
        match self {
            ApplicationPolicyView::KeyedMap | ApplicationPolicyView::Result => 2,
            ApplicationPolicyView::Deny { arity, .. } => arity as nat,
            ApplicationPolicyView::Audited { arity, .. } => arity as nat,
            _ => 1,
        }
    }

    /// The rule for an application of the constructor displayed as `name`.
    pub open spec fn rule(
        self,
        name: Seq<char>,
        requirement: ThreadSafetyRequirement,
    ) -> ApplicationRuleView {
        let on = |index: int, asked: ThreadSafetyRequirement, suffix: Seq<char>, rule: Seq<char>|
            ObligationView { index, requirement: asked, suffix, rule };
        let same = |head: Seq<char>| "`"@ + name + head + requirement.name() + "`"@;
        match self {
            ApplicationPolicyView::Vec | ApplicationPolicyView::Option => {
                ApplicationRuleView::Requires(
                    seq![on(0, requirement, ".value"@, same("<T>` requires `T: "@))],
                )
            },
            ApplicationPolicyView::KeyedMap => ApplicationRuleView::Requires(
                seq![
                    on(0, requirement, ".key"@, same("<K, V>` requires `K: "@)),
                    on(1, requirement, ".value"@, same("<K, V>` requires `V: "@)),
                ],
            ),
            ApplicationPolicyView::Result => ApplicationRuleView::Requires(
                seq![
                    on(0, requirement, "::Ok"@, same("<T, E>` requires `T: "@)),
                    on(1, requirement, "::Err"@, same("<T, E>` requires `E: "@)),
                ],
            ),
            ApplicationPolicyView::Arc => {
                let rule = "`"@ + name + "<T>` requires `T: Send + Sync`"@;
                ApplicationRuleView::Requires(
                    seq![
                        on(0, ThreadSafetyRequirement::Send, ".value"@, rule),
                        on(0, ThreadSafetyRequirement::Sync, ".value"@, rule),
                    ],
                )
            },
            ApplicationPolicyView::Mutex => ApplicationRuleView::Requires(
                seq![
                    on(
                        0,
                        ThreadSafetyRequirement::Send,
                        ".value"@,
                        "`"@ + name + "<T>` requires `T: Send`"@,
                    ),
                ],
            ),
            ApplicationPolicyView::JoinHandle => match requirement {
                ThreadSafetyRequirement::Sync => ApplicationRuleView::Denied(
                    "join handles have one exclusive owner"@,
                ),
                ThreadSafetyRequirement::Send => ApplicationRuleView::Requires(
                    seq![
                        on(
                            0,
                            ThreadSafetyRequirement::Send,
                            ".result"@,
                            "`"@ + name + "<T>` requires `T: Send`"@,
                        ),
                    ],
                ),
            },
            ApplicationPolicyView::Sender | ApplicationPolicyView::Receiver => {
                match requirement {
                    ThreadSafetyRequirement::Sync => ApplicationRuleView::Denied(
                        "SPSC endpoints require one exclusive owner"@,
                    ),
                    ThreadSafetyRequirement::Send => ApplicationRuleView::Requires(
                        seq![
                            on(
                                0,
                                ThreadSafetyRequirement::Send,
                                ".item"@,
                                "`"@ + name + "<T>` requires `T: Send`"@,
                            ),
                        ],
                    ),
                }
            },
            ApplicationPolicyView::Deny { reason, .. } => ApplicationRuleView::Denied(reason),
            ApplicationPolicyView::Audited { send, sync, reason, .. } => {
                if audit_allows(send, sync, requirement) {
                    ApplicationRuleView::Requires(Seq::empty())
                } else {
                    ApplicationRuleView::Denied(reason)
                }
            },
        }
    }
}

impl CanonicalApplicationPolicy {
    fn expected_arity(&self) -> (arity: usize)
        ensures
            arity == self@.arity(),
    {
        match self {
            CanonicalApplicationPolicy::KeyedMap | CanonicalApplicationPolicy::Result => 2,
            CanonicalApplicationPolicy::Deny { arity, .. } => *arity,
            CanonicalApplicationPolicy::Audited { arity, .. } => *arity,
            _ => 1,
        }
    }

    fn obligations(&self, name: &str, requirement: ThreadSafetyRequirement) -> (rule:
        ApplicationRule)
        ensures
            rule@ == self@.rule(name@, requirement),
    {
        let rule = match self {
            CanonicalApplicationPolicy::Vec | CanonicalApplicationPolicy::Option => {
                ApplicationRule::Requires(
                    vec![
                        matching_obligation(0, requirement, ".value", name, "<T>` requires `T: "),
                    ],
                )
            },
            CanonicalApplicationPolicy::KeyedMap => ApplicationRule::Requires(
                vec![
                    matching_obligation(0, requirement, ".key", name, "<K, V>` requires `K: "),
                    matching_obligation(1, requirement, ".value", name, "<K, V>` requires `V: "),
                ],
            ),
            CanonicalApplicationPolicy::Result => ApplicationRule::Requires(
                vec![
                    matching_obligation(0, requirement, "::Ok", name, "<T, E>` requires `T: "),
                    matching_obligation(1, requirement, "::Err", name, "<T, E>` requires `E: "),
                ],
            ),
            CanonicalApplicationPolicy::Arc => {
                let first = Obligation {
                    index: 0,
                    requirement: ThreadSafetyRequirement::Send,
                    suffix: ".value",
                    rule: concat3("`", name, "<T>` requires `T: Send + Sync`"),
                };
                let second = Obligation {
                    index: 0,
                    requirement: ThreadSafetyRequirement::Sync,
                    suffix: ".value",
                    rule: concat3("`", name, "<T>` requires `T: Send + Sync`"),
                };
                ApplicationRule::Requires(vec![first, second])
            },
            CanonicalApplicationPolicy::Mutex => ApplicationRule::Requires(
                vec![send_obligation(".value", name)],
            ),
            CanonicalApplicationPolicy::JoinHandle => match requirement {
                ThreadSafetyRequirement::Sync => ApplicationRule::Denied(
                    "join handles have one exclusive owner".to_owned(),
                ),
                ThreadSafetyRequirement::Send => ApplicationRule::Requires(
                    vec![send_obligation(".result", name)],
                ),
            },
            CanonicalApplicationPolicy::Sender | CanonicalApplicationPolicy::Receiver => {
                match requirement {
                    ThreadSafetyRequirement::Sync => ApplicationRule::Denied(
                        "SPSC endpoints require one exclusive owner".to_owned(),
                    ),
                    ThreadSafetyRequirement::Send => ApplicationRule::Requires(
                        vec![send_obligation(".item", name)],
                    ),
                }
            },
            CanonicalApplicationPolicy::Deny { reason, .. } => ApplicationRule::Denied(
                reason.clone(),
            ),
            CanonicalApplicationPolicy::Audited { send, sync, reason, .. } => {
                let allowed = match requirement {
                    ThreadSafetyRequirement::Send => *send,
                    ThreadSafetyRequirement::Sync => *sync,
                };
                if allowed {
                    ApplicationRule::Requires(Vec::new())
                } else {
                    ApplicationRule::Denied(reason.clone())
                }
            },
        };
        proof {
            match (rule@, self@.rule(name@, requirement)) {
                (ApplicationRuleView::Requires(a), ApplicationRuleView::Requires(b)) => {
                    assert(a =~= b);
                },
                _ => {},
            }
        }
        rule
    }
}

/// Whether an audit allows a requirement.
pub open spec fn audit_allows(
    send: bool,
    sync: bool,
    requirement: ThreadSafetyRequirement,
) -> bool {
    match requirement {
        ThreadSafetyRequirement::Send => send,
        ThreadSafetyRequirement::Sync => sync,
    }
}

fn matching_obligation(
    index: usize,
    requirement: ThreadSafetyRequirement,
    suffix: &'static str,
    name: &str,
    head: &str,
) -> (obligation: Obligation)
    ensures
        obligation@ == (ObligationView {
            index: index as int,
            requirement,
            suffix: suffix@,
            rule: "`"@ + name@ + head@ + requirement.name() + "`"@,
        }),
{
    Obligation {
        index,
        requirement,
        suffix,
        rule: concat5("`", name, head, requirement.label(), "`"),
    }
}

fn send_obligation(suffix: &'static str, name: &str) -> (obligation: Obligation)
    ensures
        obligation@ == (ObligationView {
            index: 0,
            requirement: ThreadSafetyRequirement::Send,
            suffix: suffix@,
            rule: "`"@ + name@ + "<T>` requires `T: Send`"@,
        }),
{
    Obligation {
        index: 0,
        requirement: ThreadSafetyRequirement::Send,
        suffix,
        rule: concat3("`", name, "<T>` requires `T: Send`"),
    }
}

proof fn obligations_are_on_arguments(
    policy: ApplicationPolicyView,
    name: Seq<char>,
    requirement: ThreadSafetyRequirement,
)
    ensures
        policy.rule(name, requirement) matches ApplicationRuleView::Requires(obligations) ==> (
        forall|i: int|
            0 <= i < obligations.len() ==> 0 <= (#[trigger] obligations[i]).index < policy.arity()),
{
}

/// What a registry knows: the structural definitions, the identity space that
/// it issues from, and the registered constructors and nominal types with their
/// display names.
pub struct RegistryView {
    pub defs: DefinitionsView,
    pub space: u64,
    pub constructors: Seq<(Seq<char>, ApplicationPolicyView)>,
    pub nominals: Seq<(Seq<char>, NominalPolicyView)>,
}

impl RegistryView {
    pub open spec fn constructor(self, id: CanonicalConstructorId) -> Option<
        (Seq<char>, ApplicationPolicyView),
    > {
        if id.space() == self.space && 0 <= id.position() < self.constructors.len() {
            Some(self.constructors[id.position()])
        } else {
            None
        }
    }

    /// The nominal type with the given identity, if it was registered among the
    /// first `bound`.
    pub open spec fn nominal(self, id: CanonicalNominalId, bound: nat) -> Option<
        (Seq<char>, NominalPolicyView),
    > {
        if id.space() == self.space && 0 <= id.position() < self.nominals.len() && id.position()
            < bound {
            Some(self.nominals[id.position()])
        } else {
            None
        }
    }

    /// Whether two registries differ in display names only.
    pub open spec fn has_policies_of(self, other: RegistryView) -> bool {
        &&& self.defs == other.defs
        &&& self.space == other.space
        &&& self.constructors.len() == other.constructors.len()
        &&& self.nominals.len() == other.nominals.len()
        &&& forall|i: int|
            0 <= i < self.constructors.len() ==> (#[trigger] self.constructors[i]).1
                == other.constructors[i].1
        &&& forall|i: int|
            0 <= i < self.nominals.len() ==> (#[trigger] self.nominals[i]).1
                == other.nominals[i].1
    }
}

/// The trace below a constraint.
pub open spec fn constrained(
    trace: Seq<ConstraintView>,
    path: Seq<char>,
    requirement: ThreadSafetyRequirement,
    rule: Seq<char>,
) -> Seq<ConstraintView> {
    trace.push(ConstraintView { path, requirement, rule })
}

/// The verdict on a type whose nominal parts were registered among the first
/// `bound`. An identity is issued after its policy is fixed, so the parts of a
/// nominal type were all registered before it.
pub open spec fn verdict(
    reg: RegistryView,
    bound: nat,
    ty: ThreadSafetyTypeView,
    requirement: ThreadSafetyRequirement,
    path: Seq<char>,
    trace: Seq<ConstraintView>,
) -> Verdict
    decreases bound, 1nat, ty, 0nat,
{
    match ty {
        ThreadSafetyTypeView::Plain(ty) => plain_verdict(
            reg.defs,
            ty,
            requirement,
            path,
            Seq::empty(),
            trace,
        ),
        ThreadSafetyTypeView::Own(inner) => verdict(reg, bound, *inner, requirement, path, trace),
        ThreadSafetyTypeView::Array { element, .. } => verdict(
            reg,
            bound,
            *element,
            requirement,
            path + "[]"@,
            trace,
        ),
        ThreadSafetyTypeView::Tuple(elements) => elements_from(
            reg,
            bound,
            elements,
            0,
            requirement,
            path,
            trace,
        ),
        ThreadSafetyTypeView::Application { constructor, args } => match reg.constructor(
            constructor,
        ) {
            None => rejection(
                requirement,
                path,
                "generic constructor identity did not originate from this compilation registry"@,
                trace,
            ),
            Some((name, policy)) => if args.len() != policy.arity() {
                rejection(
                    requirement,
                    path,
                    "canonical `"@ + name + "` expected "@ + decimal_text(policy.arity())
                        + " type arguments, found "@ + decimal_text(args.len()),
                    trace,
                )
            } else {
                match policy.rule(name, requirement) {
                    ApplicationRuleView::Denied(reason) => rejection(
                        requirement,
                        path,
                        reason,
                        trace,
                    ),
                    ApplicationRuleView::Requires(obligations) => obligations_from(
                        reg,
                        bound,
                        args,
                        obligations,
                        0,
                        path,
                        trace,
                    ),
                }
            },
        },
        ThreadSafetyTypeView::Nominal(identity) => nominal_verdict(
            reg,
            bound,
            identity,
            requirement,
            path,
            trace,
        ),
        ThreadSafetyTypeView::Callable { signature, provenance } => {
            if !(signature is Function) {
                rejection(
                    requirement,
                    path,
                    "callable provenance was attached to a non-callable type"@,
                    trace,
                )
            } else if requirement == ThreadSafetyRequirement::Sync {
                rejection(
                    requirement,
                    path,
                    "owned `FnOnce` values have one exclusive owner and are not `Sync`"@,
                    trace,
                )
            } else {
                match provenance {
                    SendProvenanceView::FunctionItem { .. } => Ok(()),
                    SendProvenanceView::Unknown { reason } => rejection(
                        requirement,
                        path,
                        "callable environment provenance is unknown: "@ + reason,
                        trace,
                    ),
                    SendProvenanceView::OwnedClosure { origin, captures } => captures_from(
                        reg,
                        bound,
                        origin,
                        captures,
                        0,
                        path,
                        trace,
                    ),
                }
            }
        },
    }
}

/// The verdict on the elements of a tuple from position `i` on.
pub open spec fn elements_from(
    reg: RegistryView,
    bound: nat,
    elements: Seq<ThreadSafetyTypeView>,
    i: nat,
    requirement: ThreadSafetyRequirement,
    path: Seq<char>,
    trace: Seq<ConstraintView>,
) -> Verdict
    decreases bound, 1nat, elements, elements.len() - i,
{
    if i >= elements.len() {
        Ok(())
    } else {
        match verdict(
            reg,
            bound,
            elements[i as int],
            requirement,
            path + "["@ + decimal_text(i) + "]"@,
            trace,
        ) {
            Ok(()) => elements_from(reg, bound, elements, i + 1, requirement, path, trace),
            Err(error) => Err(error),
        }
    }
}

/// The verdict on the obligations of an application from position `i` on.
pub open spec fn obligations_from(
    reg: RegistryView,
    bound: nat,
    args: Seq<ThreadSafetyTypeView>,
    obligations: Seq<ObligationView>,
    i: int,
    path: Seq<char>,
    trace: Seq<ConstraintView>,
) -> Verdict
    decreases bound, 1nat, args, obligations.len() - i,
{
    if i < 0 || i >= obligations.len() || obligations[i].index < 0 || obligations[i].index
        >= args.len() {
        Ok(())
    } else {
        let asked = obligations[i];
        let arg_path = path + asked.suffix;
        match verdict(
            reg,
            bound,
            args[asked.index],
            asked.requirement,
            arg_path,
            constrained(trace, arg_path, asked.requirement, asked.rule),
        ) {
            Ok(()) => obligations_from(reg, bound, args, obligations, i + 1, path, trace),
            Err(error) => Err(error),
        }
    }
}

/// The verdict on the captures of an owned closure from position `i` on.
pub open spec fn captures_from(
    reg: RegistryView,
    bound: nat,
    origin: Seq<char>,
    captures: Seq<CaptureProvenanceView>,
    i: int,
    path: Seq<char>,
    trace: Seq<ConstraintView>,
) -> Verdict
    decreases bound, 1nat, captures, captures.len() - i,
{
    if i < 0 || i >= captures.len() {
        Ok(())
    } else {
        let capture_path = path + ".capture `"@ + captures[i].name + "`"@;
        match verdict(
            reg,
            bound,
            captures[i].ty,
            ThreadSafetyRequirement::Send,
            capture_path,
            constrained(
                trace,
                capture_path,
                ThreadSafetyRequirement::Send,
                "owned closure `"@ + origin + "` requires every capture to be Send"@,
            ),
        ) {
            Ok(()) => captures_from(reg, bound, origin, captures, i + 1, path, trace),
            Err(error) => Err(error),
        }
    }
}

/// The verdict on a nominal type.
pub open spec fn nominal_verdict(
    reg: RegistryView,
    bound: nat,
    identity: CanonicalNominalId,
    requirement: ThreadSafetyRequirement,
    path: Seq<char>,
    trace: Seq<ConstraintView>,
) -> Verdict
    decreases bound, 0nat, identity, 0nat,
{
    match reg.nominal(identity, bound) {
        None => rejection(
            requirement,
            path,
            "nominal type identity did not originate from this compilation registry"@,
            trace,
        ),
        Some((name, policy)) => match policy {
            NominalPolicyView::Deny { reason } => rejection(
                requirement,
                path,
                reason,
                trace,
            ),
            NominalPolicyView::Audited { send, sync, reason } => if audit_allows(
                send,
                sync,
                requirement,
            ) {
                Ok(())
            } else {
                rejection(requirement, path, reason, trace)
            },
            _ => layout_verdict(
                reg,
                identity.position() as nat,
                policy,
                requirement,
                path,
                constrained(trace, path, requirement, layout_rule(name, policy)),
            ),
        },
    }
}

/// The rule that a nominal type's layout imposes.
pub open spec fn layout_rule(name: Seq<char>, policy: NominalPolicyView) -> Seq<char> {
    let subject = match policy {
        NominalPolicyView::StructuralStruct { .. } => "structural fields of `"@,
        NominalPolicyView::StructuralEnum { .. } => "structural variants of `"@,
        NominalPolicyView::MonomorphicStruct { .. } => {
            "monomorphic structural fields of `"@
        },
        _ => "monomorphic structural variants of `"@,
    };
    subject + name + "`"@
}

/// The verdict on the parts of a nominal type that is defined by its layout.
pub open spec fn layout_verdict(
    reg: RegistryView,
    bound: nat,
    policy: NominalPolicyView,
    requirement: ThreadSafetyRequirement,
    path: Seq<char>,
    trace: Seq<ConstraintView>,
) -> Verdict
    decreases bound, 3nat, policy, 0nat,
{
    match policy {
        NominalPolicyView::StructuralStruct { definition } => struct_verdict(
            reg.defs,
            definition,
            requirement,
            path,
            Seq::empty(),
            trace,
        ),
        NominalPolicyView::StructuralEnum { definition } => enum_verdict(
            reg.defs,
            definition,
            requirement,
            path,
            Seq::empty(),
            trace,
        ),
        NominalPolicyView::MonomorphicStruct { fields } => monomorphic_fields_from(
            reg,
            bound,
            fields,
            0,
            requirement,
            path,
            trace,
        ),
        NominalPolicyView::MonomorphicEnum { variants } => monomorphic_variants_from(
            reg,
            bound,
            variants,
            0,
            requirement,
            path,
            trace,
        ),
        _ => Ok(()),
    }
}

/// The verdict on the fields of a substituted struct from position `i` on.
pub open spec fn monomorphic_fields_from(
    reg: RegistryView,
    bound: nat,
    fields: Seq<(Seq<char>, ThreadSafetyTypeView)>,
    i: int,
    requirement: ThreadSafetyRequirement,
    path: Seq<char>,
    trace: Seq<ConstraintView>,
) -> Verdict
    decreases bound, 2nat, fields, fields.len() - i,
{
    if i < 0 || i >= fields.len() {
        Ok(())
    } else {
        match verdict(
            reg,
            bound,
            fields[i].1,
            requirement,
            path + "."@ + fields[i].0,
            trace,
        ) {
            Ok(()) => monomorphic_fields_from(reg, bound, fields, i + 1, requirement, path, trace),
            Err(error) => Err(error),
        }
    }
}

/// The verdict on the payloads of a substituted enum from position `i` on.
pub open spec fn monomorphic_variants_from(
    reg: RegistryView,
    bound: nat,
    variants: Seq<(Seq<char>, Option<ThreadSafetyTypeView>)>,
    i: int,
    requirement: ThreadSafetyRequirement,
    path: Seq<char>,
    trace: Seq<ConstraintView>,
) -> Verdict
    decreases bound, 2nat, variants, variants.len() - i,
{
    if i < 0 || i >= variants.len() {
        Ok(())
    } else {
        let payload_verdict = match variants[i].1 {
            Some(payload) => verdict(
                reg,
                bound,
                payload,
                requirement,
                path + "::"@ + variants[i].0,
                trace,
            ),
            None => Ok(()),
        };
        match payload_verdict {
            Ok(()) => monomorphic_variants_from(
                reg,
                bound,
                variants,
                i + 1,
                requirement,
                path,
                trace,
            ),
            Err(error) => Err(error),
        }
    }
}

/// The verdict on a whole value.
pub open spec fn root_verdict(
    reg: RegistryView,
    ty: ThreadSafetyTypeView,
    requirement: ThreadSafetyRequirement,
    root: Seq<char>,
) -> Verdict {
    verdict(reg, reg.nominals.len(), ty, requirement, root, Seq::empty())
}

/// The identity space that is handed out after `space`. The numbering starts
/// over at zero after the largest one.
pub open spec fn space_after(space: u64) -> u64 {
    if space == u64::MAX {
        0
    } else {
        (space + 1) as u64
    }
}

/// Hands out one identity space per registry. Registries whose spaces come from
/// one such source are told apart until the numbering starts over; those of two
/// sources may be given the same space.
#[derive(Debug)]
pub struct IdentitySpaces {
    next: u64,
}

impl IdentitySpaces {
    /// The identity space that is handed out next.
    pub closed spec fn upcoming(self) -> u64 {
        self.next
    }

    pub fn new() -> (spaces: IdentitySpaces)
        ensures
            spaces.upcoming() == 1,
    {
        IdentitySpaces { next: 1 }
    }

    /// Takes the next identity space.
    pub fn fresh(&mut self) -> (space: u64)
        ensures
            space == old(self).upcoming(),
            final(self).upcoming() == space_after(space),
    {
        let space = self.next;
        self.next = space.wrapping_add(1);
        space
    }
}

/// Read-only type definitions plus compiler-issued thread-safety policies.
pub struct ThreadSafetyRegistry<'a> {
    structs: &'a NameMap<StructType>,
    enums: &'a NameMap<EnumType>,
    identity_space: u64,
    constructors: Vec<ConstructorEntry>,
    nominals: Vec<NominalEntry>,
}

impl<'a> View for ThreadSafetyRegistry<'a> {
    type V = RegistryView;

    closed spec fn view(&self) -> RegistryView {
        RegistryView {
            defs: DefinitionsView { structs: self.structs@, enums: self.enums@ },
            space: self.identity_space,
            constructors: Seq::new(
                self.constructors@.len(),
                |i: int| (self.constructors@[i].display_name@, self.constructors@[i].policy@),
            ),
            nominals: Seq::new(
                self.nominals@.len(),
                |i: int| (self.nominals@[i].display_name@, self.nominals@[i].policy@),
            ),
        }
    }
}

fn clone_trace(trace: &Vec<ThreadSafetyConstraint>) -> (copy: Vec<ThreadSafetyConstraint>)
    ensures
        trace_view(copy@) == trace_view(trace@),
{
    let mut copy: Vec<ThreadSafetyConstraint> = Vec::new();
    let mut i: usize = 0;
    while i < trace.len()
        invariant
            i <= trace.len(),
            copy.len() == i,
            forall|j: int| 0 <= j < i ==> (#[trigger] copy[j])@ == trace[j]@,
        decreases trace.len() - i,
    {
        copy.push(trace[i].clone());
        i += 1;
    }
    assert(trace_view(copy@) =~= trace_view(trace@));
    copy
}

fn reject(
    requirement: ThreadSafetyRequirement,
    path: &str,
    reason: &str,
    trace: &Vec<ThreadSafetyConstraint>,
) -> (result: Result<(), ThreadSafetyError>)
    ensures
        verdict_view(result) == rejection(requirement, path@, reason@, trace_view(trace@)),
{
    Err(
        ThreadSafetyError {
            requirement,
            path: path.to_owned(),
            reason: reason.to_owned(),
            constraint_trace: clone_trace(trace),
        },
    )
}

pub(crate) fn is_visiting(visiting: &Vec<VisitKey>, is_enum: bool, name: &str) -> (found: bool)
    ensures
        found == visits(visiting@).contains((is_enum, name@)),
{
    let mut i: usize = 0;
    while i < visiting.len()
        invariant
            i <= visiting.len(),
            forall|j: int| 0 <= j < i ==> visits(visiting@)[j] != (is_enum, name@),
        decreases visiting.len() - i,
    {
        if visiting[i].is_enum == is_enum && same_text(visiting[i].name.as_str(), name) {
            assert(visits(visiting@)[i as int] == (is_enum, name@));
            return true;
        }
        i += 1;
    }
    false
}

impl<'a> ThreadSafetyRegistry<'a> {
    pub fn new(
        structs: &'a NameMap<StructType>,
        enums: &'a NameMap<EnumType>,
        spaces: &mut IdentitySpaces,
    ) -> (registry: ThreadSafetyRegistry<'a>)
        ensures
            registry@ == (RegistryView {
                defs: DefinitionsView { structs: structs@, enums: enums@ },
                space: old(spaces).upcoming(),
                constructors: Seq::empty(),
                nominals: Seq::empty(),
            }),
            registry@.is_closed(),
            final(spaces).upcoming() == space_after(old(spaces).upcoming()),
    {
        let registry = ThreadSafetyRegistry {
            structs,
            enums,
            identity_space: spaces.fresh(),
            constructors: Vec::new(),
            nominals: Vec::new(),
        };
        assert(registry@.constructors =~= Seq::empty());
        assert(registry@.nominals =~= Seq::empty());
        registry
    }

    /// Register a constructor only after resolver provenance confirms the
    /// canonical declaration. The returned identity, not `display_name`, is
    /// what selects the policy during checking.
    pub fn register_constructor(
        &mut self,
        display_name: &str,
        policy: CanonicalApplicationPolicy,
    ) -> (id: CanonicalConstructorId)
        ensures
            final(self)@ == old(self)@.with_constructor(display_name@, policy@),
            id == CanonicalConstructorId::issued(old(self)@.space, old(self)@.constructors.len() as int),
            id.space() == old(self)@.space,
            old(self)@.constructors.len() <= u32::MAX ==> {
                &&& id.position() == old(self)@.constructors.len()
                &&& final(self)@.constructor(id) == Some((display_name@, policy@))
                &&& forall|position: int|
                    0 <= position < old(self)@.constructors.len() ==> id
                        != #[trigger] CanonicalConstructorId::issued(old(self)@.space, position)
            },
            forall|other: CanonicalConstructorId| #[trigger]
                other.space() != old(self)@.space ==> id != other,
            old(self)@.is_closed() ==> final(self)@.is_closed()
                && old(self)@.verdicts_are_kept_by(final(self)@),
    {
        let ghost view = policy@;
        let slot: u32 = self.constructors.len() as u32;
        self.constructors.push(
            ConstructorEntry { display_name: display_name.to_owned(), policy },
        );
        assert(self@.constructors =~= old(self)@.constructors.push((display_name@, policy@)));
        assert(self@.nominals =~= old(self)@.nominals);
        proof {
            if old(self)@.is_closed() {
                registrations_keep_a_registry_closed(
                    old(self)@,
                    display_name@,
                    view,
                    NominalPolicyView::Deny { reason: Seq::empty() },
                );
                extensions_keep_all_verdicts(old(self)@, self@);
            }
        }
        CanonicalConstructorId { identity_space: self.identity_space, slot }
    }

    /// Register a nominal identity after name resolution and, for structural
    /// generic aggregates, after all type parameters have been substituted.
    pub fn register_nominal(
        &mut self,
        display_name: &str,
        policy: NominalThreadSafetyPolicy,
    ) -> (id: CanonicalNominalId)
        ensures
            final(self)@ == old(self)@.with_nominal(display_name@, policy@),
            id == CanonicalNominalId::issued(old(self)@.space, old(self)@.nominals.len() as int),
            id.space() == old(self)@.space,
            old(self)@.nominals.len() <= u32::MAX ==> {
                &&& id.position() == old(self)@.nominals.len()
                &&& final(self)@.nominal(id, final(self)@.nominals.len()) == Some(
                    (display_name@, policy@),
                )
                &&& forall|position: int|
                    0 <= position < old(self)@.nominals.len() ==> id
                        != #[trigger] CanonicalNominalId::issued(old(self)@.space, position)
            },
            forall|other: CanonicalNominalId| #[trigger]
                other.space() != old(self)@.space ==> id != other,
            old(self)@.is_closed() && policy_built_from(
                old(self)@,
                old(self)@.nominals.len(),
                policy@,
            ) ==> final(self)@.is_closed(),
            old(self)@.is_closed() ==> old(self)@.verdicts_are_kept_by(final(self)@),
    {
        let ghost view = policy@;
        let slot: u32 = self.nominals.len() as u32;
        self.nominals.push(NominalEntry { display_name: display_name.to_owned(), policy });
        assert(self@.nominals =~= old(self)@.nominals.push((display_name@, policy@)));
        assert(self@.constructors =~= old(self)@.constructors);
        proof {
            if old(self)@.is_closed() {
                extensions_keep_all_verdicts(old(self)@, self@);
                if policy_built_from(old(self)@, old(self)@.nominals.len(), view) {
                    registrations_keep_a_registry_closed(
                        old(self)@,
                        display_name@,
                        ApplicationPolicyView::Vec,
                        view,
                    );
                }
            }
        }
        CanonicalNominalId { identity_space: self.identity_space, slot }
    }

    pub fn check_send<T: ThreadSafetyCheckInput>(&self, root: &str, ty: &T) -> (result: Result<
        (),
        ThreadSafetyError,
    >)
        ensures
            verdict_view(result) == root_verdict(
                self@,
                ty.checked_type(),
                ThreadSafetyRequirement::Send,
                root@,
            ),
    {
        let ty = ty.to_thread_safety_type();
        let mut trace: Vec<ThreadSafetyConstraint> = Vec::new();
        assert(trace_view(trace@) =~= Seq::empty());
        self.check(&ty, self.nominals.len(), ThreadSafetyRequirement::Send, root, &mut trace)
    }

    pub fn check_sync<T: ThreadSafetyCheckInput>(&self, root: &str, ty: &T) -> (result: Result<
        (),
        ThreadSafetyError,
    >)
        ensures
            verdict_view(result) == root_verdict(
                self@,
                ty.checked_type(),
                ThreadSafetyRequirement::Sync,
                root@,
            ),
    {
        let ty = ty.to_thread_safety_type();
        let mut trace: Vec<ThreadSafetyConstraint> = Vec::new();
        assert(trace_view(trace@) =~= Seq::empty());
        self.check(&ty, self.nominals.len(), ThreadSafetyRequirement::Sync, root, &mut trace)
    }

    fn check_plain(
        &self,
        ty: &Type,
        requirement: ThreadSafetyRequirement,
        path: &str,
        visiting: &mut Vec<VisitKey>,
        trace: &Vec<ThreadSafetyConstraint>,
    ) -> (result: Result<(), ThreadSafetyError>)
        ensures
            final(visiting)@ == old(visiting)@,
            verdict_view(result) == plain_verdict(
                self@.defs,
                ty@,
                requirement,
                path@,
                visits(old(visiting)@),
                trace_view(trace@),
            ),
        decreases unvisited(self@.defs, visits(old(visiting)@)), 1nat, ty, 0nat,
    {
        match ty {
            Type::I8 | Type::I32 | Type::I64 | Type::U8 | Type::U32 | Type::U64 | Type::Usize
            | Type::F32 | Type::F64 | Type::Bool | Type::Char | Type::String | Type::Void
            | Type::Atomic(_) => Ok(()),
            Type::Str => reject(
                requirement,
                path,
                "borrowed `str` may not escape to a thread",
                trace,
            ),
            Type::Ref(..) => reject(
                requirement,
                path,
                "borrowed references may not escape to a thread",
                trace,
            ),
            Type::RawPtr(..) => reject(
                requirement,
                path,
                "raw pointers have no compiler-verifiable ownership protocol",
                trace,
            ),
            Type::Shared(..) => reject(
                requirement,
                path,
                "`Shared<T>` is not synchronized and cannot cross threads",
                trace,
            ),
            Type::Own(inner) => self.check_plain(inner, requirement, path, visiting, trace),
            Type::Array(inner, _) => self.check_plain(
                inner,
                requirement,
                concat2(path, "[]").as_str(),
                visiting,
                trace,
            ),
            Type::Tuple(elements) => {
                let ghost parts = types_view(elements@);
                let ghost entered = visits(visiting@);
                assert(ty@ == TypeView::Tuple(parts));
                let mut index: usize = 0;
                while index < elements.len()
                    invariant
                        index <= elements.len(),
                        decreases_to!(ty => elements),
                        ty@ == TypeView::Tuple(parts),
                        visiting@ == old(visiting)@,
                        entered == visits(old(visiting)@),
                        parts == types_view(elements@),
                        plain_elements_from(
                            self@.defs,
                            parts,
                            index as nat,
                            requirement,
                            path@,
                            entered,
                            trace_view(trace@),
                        ) == plain_elements_from(
                            self@.defs,
                            parts,
                            0,
                            requirement,
                            path@,
                            entered,
                            trace_view(trace@),
                        ),
                    decreases elements.len() - index,
                {
                    let element = &elements[index];
                    assert(parts[index as int] == element@);
                    let number = decimal(index as u64);
                    let part_path = concat4(path, "[", number.as_str(), "]");
                    match self.check_plain(
                        element,
                        requirement,
                        part_path.as_str(),
                        visiting,
                        trace,
                    ) {
                        Ok(()) => {},
                        Err(error) => {
                            return Err(error);
                        },
                    }
                    index += 1;
                }
                Ok(())
            },
            Type::Named(name) => self.check_struct_definition(
                name.as_str(),
                requirement,
                path,
                visiting,
                trace,
            ),
            Type::Enum(name) => self.check_enum_definition(
                name.as_str(),
                requirement,
                path,
                visiting,
                trace,
            ),
            Type::Param(name) => reject(
                requirement,
                path,
                concat3(
                    "generic parameter `",
                    name.as_str(),
                    "` was not resolved before thread-safety checking",
                ).as_str(),
                trace,
            ),
            Type::Function { .. } => reject(
                requirement,
                path,
                "callable environment provenance was lost before thread-safety checking",
                trace,
            ),
            Type::BorrowedFunction { .. } => reject(
                requirement,
                path,
                "borrowed callable environments cannot escape to an unscoped thread",
                trace,
            ),
            Type::App { base, .. } => reject(
                requirement,
                path,
                concat3(
                    "generic type `",
                    base.as_str(),
                    "` has no canonical resolver identity; source spelling cannot select compiler thread-safety policy",
                ).as_str(),
                trace,
            ),
        }
    }

    fn check_struct_definition(
        &self,
        name: &str,
        requirement: ThreadSafetyRequirement,
        path: &str,
        visiting: &mut Vec<VisitKey>,
        trace: &Vec<ThreadSafetyConstraint>,
    ) -> (result: Result<(), ThreadSafetyError>)
        ensures
            final(visiting)@ == old(visiting)@,
            verdict_view(result) == struct_verdict(
                self@.defs,
                name@,
                requirement,
                path@,
                visits(old(visiting)@),
                trace_view(trace@),
            ),
        decreases unvisited(self@.defs, visits(old(visiting)@)), 0nat, name@, 0nat,
    {
        let definition = match self.structs.get(name) {
            Some(definition) => definition,
            None => {
                return reject(
                    requirement,
                    path,
                    concat3(
                        "type `",
                        name,
                        "` has no structural thread-safety definition",
                    ).as_str(),
                    trace,
                );
            },
        };
        if is_visiting(visiting, false, name) {
            return Ok(());
        }
        let ghost before = visits(visiting@);
        visiting.push(VisitKey { is_enum: false, name: name.to_owned() });
        let ghost inside = visits(visiting@);
        proof {
            assert(inside =~= before.push((false, name@)));
            entering_a_definition_leaves_fewer(self@.defs, before, (false, name@));
        }
        let ghost entered = visiting@;
        let mut i: usize = 0;
        let mut result: Result<(), ThreadSafetyError> = Ok(());
        while i < definition.fields.len() && result.is_ok()
            invariant
                i <= definition.fields.len(),
                visiting@ == entered,
                inside == visits(entered),
                unvisited(self@.defs, inside) < unvisited(self@.defs, visits(old(visiting)@)),
                (match result {
                    Ok(()) => fields_from(
                        self@.defs,
                        definition.fields@,
                        i as int,
                        requirement,
                        path@,
                        inside,
                        trace_view(trace@),
                    ),
                    Err(error) => Err(error@),
                }) == fields_from(
                    self@.defs,
                    definition.fields@,
                    0,
                    requirement,
                    path@,
                    inside,
                    trace_view(trace@),
                ),
            decreases definition.fields.len() - i,
        {
            let part_path = concat3(path, ".", definition.fields[i].0.as_str());
            result =
            self.check_plain(
                &definition.fields[i].1,
                requirement,
                part_path.as_str(),
                visiting,
                trace,
            );
            i += 1;
        }
        visiting.pop();
        assert(visiting@ =~= old(visiting)@);
        result
    }

    fn check_enum_definition(
        &self,
        name: &str,
        requirement: ThreadSafetyRequirement,
        path: &str,
        visiting: &mut Vec<VisitKey>,
        trace: &Vec<ThreadSafetyConstraint>,
    ) -> (result: Result<(), ThreadSafetyError>)
        ensures
            final(visiting)@ == old(visiting)@,
            verdict_view(result) == enum_verdict(
                self@.defs,
                name@,
                requirement,
                path@,
                visits(old(visiting)@),
                trace_view(trace@),
            ),
        decreases unvisited(self@.defs, visits(old(visiting)@)), 0nat, name@, 0nat,
    {
        let definition = match self.enums.get(name) {
            Some(definition) => definition,
            None => {
                return reject(
                    requirement,
                    path,
                    concat3(
                        "enum `",
                        name,
                        "` has no structural thread-safety definition",
                    ).as_str(),
                    trace,
                );
            },
        };
        if is_visiting(visiting, true, name) {
            return Ok(());
        }
        let ghost before = visits(visiting@);
        visiting.push(VisitKey { is_enum: true, name: name.to_owned() });
        let ghost inside = visits(visiting@);
        proof {
            assert(inside =~= before.push((true, name@)));
            entering_a_definition_leaves_fewer(self@.defs, before, (true, name@));
        }
        let ghost entered = visiting@;
        let mut i: usize = 0;
        let mut result: Result<(), ThreadSafetyError> = Ok(());
        while i < definition.variants.len() && result.is_ok()
            invariant
                i <= definition.variants.len(),
                visiting@ == entered,
                inside == visits(entered),
                unvisited(self@.defs, inside) < unvisited(self@.defs, visits(old(visiting)@)),
                (match result {
                    Ok(()) => variants_from(
                        self@.defs,
                        definition.variants@,
                        i as int,
                        requirement,
                        path@,
                        inside,
                        trace_view(trace@),
                    ),
                    Err(error) => Err(error@),
                }) == variants_from(
                    self@.defs,
                    definition.variants@,
                    0,
                    requirement,
                    path@,
                    inside,
                    trace_view(trace@),
                ),
            decreases definition.variants.len() - i,
        {
            let variant = &definition.variants[i];
            match &variant.payload {
                Some(payload) => {
                    let part_path = concat3(path, "::", variant.name.as_str());
                    result =
                    self.check_plain(payload, requirement, part_path.as_str(), visiting, trace);
                },
                None => {},
            }
            i += 1;
        }
        visiting.pop();
        assert(visiting@ =~= old(visiting)@);
        result
    }

    fn check(
        &self,
        ty: &ThreadSafetyType,
        bound: usize,
        requirement: ThreadSafetyRequirement,
        path: &str,
        trace: &mut Vec<ThreadSafetyConstraint>,
    ) -> (result: Result<(), ThreadSafetyError>)
        ensures
            final(trace)@ == old(trace)@,
            verdict_view(result) == verdict(
                self@,
                bound as nat,
                ty@,
                requirement,
                path@,
                trace_view(old(trace)@),
            ),
        decreases bound, 1nat, ty, 0nat,
    {
        match ty {
            ThreadSafetyType::Plain(ty) => {
                let mut visiting: Vec<VisitKey> = Vec::new();
                assert(visits(visiting@) =~= Seq::empty());
                self.check_plain(ty, requirement, path, &mut visiting, trace)
            },
            ThreadSafetyType::Own(inner) => self.check(inner, bound, requirement, path, trace),
            ThreadSafetyType::Array { element, .. } => self.check(
                element,
                bound,
                requirement,
                concat2(path, "[]").as_str(),
                trace,
            ),
            ThreadSafetyType::Tuple(elements) => {
                let ghost parts = safety_types_view(elements@);
                assert(ty@ == ThreadSafetyTypeView::Tuple(parts));
                let ghost steps = trace_view(trace@);
                let mut index: usize = 0;
                while index < elements.len()
                    invariant
                        index <= elements.len(),
                        decreases_to!(ty => elements),
                        ty@ == ThreadSafetyTypeView::Tuple(parts),
                        trace@ == old(trace)@,
                        steps == trace_view(old(trace)@),
                        parts == safety_types_view(elements@),
                        elements_from(
                            self@,
                            bound as nat,
                            parts,
                            index as nat,
                            requirement,
                            path@,
                            steps,
                        ) == elements_from(self@, bound as nat, parts, 0, requirement, path@, steps),
                    decreases elements.len() - index,
                {
                    let element = &elements[index];
                    assert(parts[index as int] == element@);
                    let number = decimal(index as u64);
                    let part_path = concat4(path, "[", number.as_str(), "]");
                    match self.check(element, bound, requirement, part_path.as_str(), trace) {
                        Ok(()) => {},
                        Err(error) => {
                            return Err(error);
                        },
                    }
                    index += 1;
                }
                Ok(())
            },
            ThreadSafetyType::Application { constructor, args } => self.check_application(
                *constructor,
                args,
                bound,
                requirement,
                path,
                trace,
            ),
            ThreadSafetyType::Nominal(identity) => self.check_nominal(
                *identity,
                bound,
                requirement,
                path,
                trace,
            ),
            ThreadSafetyType::Callable { signature, provenance } => self.check_callable(
                signature,
                provenance,
                bound,
                requirement,
                path,
                trace,
            ),
        }
    }

    fn check_application(
        &self,
        identity: CanonicalConstructorId,
        args: &Vec<ThreadSafetyType>,
        bound: usize,
        requirement: ThreadSafetyRequirement,
        path: &str,
        trace: &mut Vec<ThreadSafetyConstraint>,
    ) -> (result: Result<(), ThreadSafetyError>)
        ensures
            final(trace)@ == old(trace)@,
            verdict_view(result) == verdict(
                self@,
                bound as nat,
                ThreadSafetyTypeView::Application {
                    constructor: identity,
                    args: safety_types_view(args@),
                },
                requirement,
                path@,
                trace_view(old(trace)@),
            ),
        decreases bound, 1nat, args, 0nat,
    {
        let entry = match self.constructor_entry(identity) {
            Some(entry) => entry,
            None => {
                return reject(
                    requirement,
                    path,
                    "generic constructor identity did not originate from this compilation registry",
                    trace,
                );
            },
        };
        let ghost parts = safety_types_view(args@);
        let ghost name = entry.display_name@;
        let expected_arity = entry.policy.expected_arity();
        if args.len() != expected_arity {
            let expected = decimal(expected_arity as u64);
            let found = decimal(args.len() as u64);
            let mut reason = concat4(
                "canonical `",
                entry.display_name.as_str(),
                "` expected ",
                expected.as_str(),
            );
            reason.append(" type arguments, found ");
            reason.append(found.as_str());
            return reject(requirement, path, reason.as_str(), trace);
        }
        let rule = entry.policy.obligations(entry.display_name.as_str(), requirement);
        proof {
            obligations_are_on_arguments(entry.policy@, name, requirement);
        }
        match &rule {
            ApplicationRule::Denied(reason) => reject(requirement, path, reason.as_str(), trace),
            ApplicationRule::Requires(obligations) => {
                let ghost asked = Seq::new(obligations@.len(), |i: int| obligations@[i]@);
                let ghost steps = trace_view(trace@);
                let mut i: usize = 0;
                let mut result: Result<(), ThreadSafetyError> = Ok(());
                while i < obligations.len() && result.is_ok()
                    invariant
                        i <= obligations.len(),
                        asked == Seq::new(obligations@.len(), |i: int| obligations@[i]@),
                        parts == safety_types_view(args@),
                        trace@ == old(trace)@,
                        steps == trace_view(old(trace)@),
                        forall|k: int|
                            0 <= k < asked.len() ==> 0 <= (#[trigger] asked[k]).index < args.len(),
                        (match result {
                            Ok(()) => obligations_from(
                                self@,
                                bound as nat,
                                parts,
                                asked,
                                i as int,
                                path@,
                                steps,
                            ),
                            Err(error) => Err(error@),
                        }) == obligations_from(self@, bound as nat, parts, asked, 0, path@, steps),
                    decreases obligations.len() - i,
                {
                    let obligation = &obligations[i];
                    assert(asked[i as int] == obligation@);
                    assert(parts[obligation.index as int] == args[obligation.index as int]@);
                    let arg_path = concat2(path, obligation.suffix);
                    trace.push(
                        ThreadSafetyConstraint {
                            path: arg_path.clone(),
                            requirement: obligation.requirement,
                            rule: obligation.rule.clone(),
                        },
                    );
                    assert(trace_view(trace@) =~= constrained(
                        steps,
                        arg_path@,
                        obligation.requirement,
                        obligation.rule@,
                    ));
                    result =
                    self.check(
                        &args[obligation.index],
                        bound,
                        obligation.requirement,
                        arg_path.as_str(),
                        trace,
                    );
                    trace.pop();
                    assert(trace@ =~= old(trace)@);
                    i += 1;
                }
                result
            },
        }
    }

    fn check_callable(
        &self,
        signature: &Type,
        provenance: &CallableSendProvenance,
        bound: usize,
        requirement: ThreadSafetyRequirement,
        path: &str,
        trace: &mut Vec<ThreadSafetyConstraint>,
    ) -> (result: Result<(), ThreadSafetyError>)
        ensures
            final(trace)@ == old(trace)@,
            verdict_view(result) == verdict(
                self@,
                bound as nat,
                ThreadSafetyTypeView::Callable { signature: signature@, provenance: provenance@ },
                requirement,
                path@,
                trace_view(old(trace)@),
            ),
        decreases bound, 1nat, provenance, 0nat,
    {
        match signature {
            Type::Function { .. } => {},
            _ => {
                return reject(
                    requirement,
                    path,
                    "callable provenance was attached to a non-callable type",
                    trace,
                );
            },
        }
        if requirement == ThreadSafetyRequirement::Sync {
            return reject(
                requirement,
                path,
                "owned `FnOnce` values have one exclusive owner and are not `Sync`",
                trace,
            );
        }
        match provenance {
            CallableSendProvenance::FunctionItem { .. } => Ok(()),
            CallableSendProvenance::Unknown { reason } => reject(
                requirement,
                path,
                concat2("callable environment provenance is unknown: ", reason.as_str()).as_str(),
                trace,
            ),
            CallableSendProvenance::OwnedClosure { origin, captures } => {
                let ghost parts = captures_view(captures@);
                assert(provenance@ == (SendProvenanceView::OwnedClosure {
                    origin: origin@,
                    captures: parts,
                }));
                let ghost steps = trace_view(trace@);
                let mut i: usize = 0;
                let mut result: Result<(), ThreadSafetyError> = Ok(());
                while i < captures.len() && result.is_ok()
                    invariant
                        i <= captures.len(),
                        decreases_to!(provenance => captures),
                        parts == captures_view(captures@),
                        trace@ == old(trace)@,
                        steps == trace_view(old(trace)@),
                        (match result {
                            Ok(()) => captures_from(
                                self@,
                                bound as nat,
                                origin@,
                                parts,
                                i as int,
                                path@,
                                steps,
                            ),
                            Err(error) => Err(error@),
                        }) == captures_from(self@, bound as nat, origin@, parts, 0, path@, steps),
                    decreases captures.len() - i,
                {
                    let capture = &captures[i];
                    assert(parts[i as int] == capture@);
                    let capture_path = concat4(path, ".capture `", capture.name.as_str(), "`");
                    trace.push(
                        ThreadSafetyConstraint {
                            path: capture_path.clone(),
                            requirement: ThreadSafetyRequirement::Send,
                            rule: concat3(
                                "owned closure `",
                                origin.as_str(),
                                "` requires every capture to be Send",
                            ),
                        },
                    );
                    assert(trace_view(trace@) =~= constrained(
                        steps,
                        capture_path@,
                        ThreadSafetyRequirement::Send,
                        "owned closure `"@ + origin@ + "` requires every capture to be Send"@,
                    ));
                    result =
                    self.check(
                        &capture.ty,
                        bound,
                        ThreadSafetyRequirement::Send,
                        capture_path.as_str(),
                        trace,
                    );
                    trace.pop();
                    assert(trace@ =~= old(trace)@);
                    i += 1;
                }
                result
            },
        }
    }

    fn check_nominal(
        &self,
        identity: CanonicalNominalId,
        bound: usize,
        requirement: ThreadSafetyRequirement,
        path: &str,
        trace: &mut Vec<ThreadSafetyConstraint>,
    ) -> (result: Result<(), ThreadSafetyError>)
        ensures
            final(trace)@ == old(trace)@,
            verdict_view(result) == nominal_verdict(
                self@,
                bound as nat,
                identity,
                requirement,
                path@,
                trace_view(old(trace)@),
            ),
        decreases bound, 0nat, identity, 0nat,
    {
        let entry = match self.nominal_entry(identity, bound) {
            Some(entry) => entry,
            None => {
                return reject(
                    requirement,
                    path,
                    "nominal type identity did not originate from this compilation registry",
                    trace,
                );
            },
        };
        let subject = match &entry.policy {
            NominalThreadSafetyPolicy::Deny { reason } => {
                return reject(requirement, path, reason.as_str(), trace);
            },
            NominalThreadSafetyPolicy::Audited { send, sync, reason } => {
                let allowed = match requirement {
                    ThreadSafetyRequirement::Send => *send,
                    ThreadSafetyRequirement::Sync => *sync,
                };
                return if allowed {
                    Ok(())
                } else {
                    reject(requirement, path, reason.as_str(), trace)
                };
            },
            NominalThreadSafetyPolicy::StructuralStruct { .. } => "structural fields of `",
            NominalThreadSafetyPolicy::StructuralEnum { .. } => "structural variants of `",
            NominalThreadSafetyPolicy::MonomorphicStruct { .. } => {
                "monomorphic structural fields of `"
            },
            NominalThreadSafetyPolicy::MonomorphicEnum { .. } => {
                "monomorphic structural variants of `"
            },
        };
        let rule = concat3(subject, entry.display_name.as_str(), "`");
        let ghost steps = constrained(trace_view(trace@), path@, requirement, rule@);
        trace.push(ThreadSafetyConstraint { path: path.to_owned(), requirement, rule });
        assert(trace_view(trace@) =~= steps);
        let result = self.check_layout(
            &entry.policy,
            identity.slot as usize,
            requirement,
            path,
            trace,
        );
        trace.pop();
        assert(trace@ =~= old(trace)@);
        result
    }

    /// Checks the parts of a nominal type that is defined by its layout.
    fn check_layout(
        &self,
        policy: &NominalThreadSafetyPolicy,
        bound: usize,
        requirement: ThreadSafetyRequirement,
        path: &str,
        trace: &mut Vec<ThreadSafetyConstraint>,
    ) -> (result: Result<(), ThreadSafetyError>)
        ensures
            final(trace)@ == old(trace)@,
            verdict_view(result) == layout_verdict(
                self@,
                bound as nat,
                policy@,
                requirement,
                path@,
                trace_view(old(trace)@),
            ),
        decreases bound, 3nat, policy, 0nat,
    {
        let ghost steps = trace_view(trace@);
        let mut visiting: Vec<VisitKey> = Vec::new();
        assert(visits(visiting@) =~= Seq::empty());
        match policy {
            NominalThreadSafetyPolicy::StructuralStruct { definition } => {
                self.check_struct_definition(
                    definition.as_str(),
                    requirement,
                    path,
                    &mut visiting,
                    trace,
                )
            },
            NominalThreadSafetyPolicy::StructuralEnum { definition } => {
                self.check_enum_definition(
                    definition.as_str(),
                    requirement,
                    path,
                    &mut visiting,
                    trace,
                )
            },
            NominalThreadSafetyPolicy::MonomorphicStruct { fields } => {
                let ghost parts = safety_fields_view(fields@);
                let mut i: usize = 0;
                let mut result: Result<(), ThreadSafetyError> = Ok(());
                while i < fields.len() && result.is_ok()
                    invariant
                        i <= fields.len(),
                        parts == safety_fields_view(fields@),
                        trace@ == old(trace)@,
                        steps == trace_view(old(trace)@),
                        (match result {
                            Ok(()) => monomorphic_fields_from(
                                self@,
                                bound as nat,
                                parts,
                                i as int,
                                requirement,
                                path@,
                                steps,
                            ),
                            Err(error) => Err(error@),
                        }) == monomorphic_fields_from(
                            self@,
                            bound as nat,
                            parts,
                            0,
                            requirement,
                            path@,
                            steps,
                        ),
                    decreases fields.len() - i,
                {
                    let part_path = concat3(path, ".", fields[i].0.as_str());
                    result =
                    self.check(&fields[i].1, bound, requirement, part_path.as_str(), trace);
                    i += 1;
                }
                result
            },
            NominalThreadSafetyPolicy::MonomorphicEnum { variants } => {
                let ghost parts = safety_variants_view(variants@);
                let mut i: usize = 0;
                let mut result: Result<(), ThreadSafetyError> = Ok(());
                while i < variants.len() && result.is_ok()
                    invariant
                        i <= variants.len(),
                        parts == safety_variants_view(variants@),
                        trace@ == old(trace)@,
                        steps == trace_view(old(trace)@),
                        (match result {
                            Ok(()) => monomorphic_variants_from(
                                self@,
                                bound as nat,
                                parts,
                                i as int,
                                requirement,
                                path@,
                                steps,
                            ),
                            Err(error) => Err(error@),
                        }) == monomorphic_variants_from(
                            self@,
                            bound as nat,
                            parts,
                            0,
                            requirement,
                            path@,
                            steps,
                        ),
                    decreases variants.len() - i,
                {
                    match &variants[i].1 {
                        Some(payload) => {
                            let part_path = concat3(path, "::", variants[i].0.as_str());
                            result =
                            self.check(payload, bound, requirement, part_path.as_str(), trace);
                        },
                        None => {},
                    }
                    i += 1;
                }
                result
            },
            NominalThreadSafetyPolicy::Deny { .. } | NominalThreadSafetyPolicy::Audited {
                ..
            } => Ok(()),
        }
    }

    fn constructor_entry(&self, id: CanonicalConstructorId) -> (entry: Option<&ConstructorEntry>)
        ensures
            match entry {
                Some(entry) => self@.constructor(id) == Some((entry.display_name@, entry.policy@)),
                None => self@.constructor(id) is None,
            },
    {
        if id.identity_space == self.identity_space && (id.slot as usize)
            < self.constructors.len() {
            Some(&self.constructors[id.slot as usize])
        } else {
            None
        }
    }

    fn nominal_entry(&self, id: CanonicalNominalId, bound: usize) -> (entry: Option<&NominalEntry>)
        ensures
            match entry {
                Some(entry) => self@.nominal(id, bound as nat) == Some(
                    (entry.display_name@, entry.policy@),
                ),
                None => self@.nominal(id, bound as nat) is None,
            },
    {
        let slot = id.slot as usize;
        if id.identity_space == self.identity_space && slot < bound && slot < self.nominals.len() {
            Some(&self.nominals[slot])
        } else {
            None
        }
    }
}

/// The verdict on a list of named captures from position `i` on.
pub open spec fn named_captures_from(
    reg: RegistryView,
    captures: Seq<(&str, &Type)>,
    i: int,
) -> Verdict
    decreases captures.len() - i,
{
    if i < 0 || i >= captures.len() {
        Ok(())
    } else {
        match root_verdict(
            reg,
            ThreadSafetyTypeView::Plain(captures[i].1@),
            ThreadSafetyRequirement::Send,
            "capture `"@ + captures[i].0@ + "`"@,
        ) {
            Ok(()) => named_captures_from(reg, captures, i + 1),
            Err(error) => Err(error),
        }
    }
}

/// The verdict on starting a task that hands back a result.
pub open spec fn spawn_verdict(
    reg: RegistryView,
    task: ThreadSafetyTypeView,
    result: ThreadSafetyTypeView,
) -> Verdict {
    match root_verdict(reg, task, ThreadSafetyRequirement::Send, "spawn task"@) {
        Ok(()) => root_verdict(reg, result, ThreadSafetyRequirement::Send, "spawn result"@),
        Err(error) => Err(error),
    }
}

impl<'a> ThreadSafetyRegistry<'a> {
    /// Compatibility hook for closure analysis while it still owns the
    /// concrete capture list. New lowering should attach
    /// [`CallableSendProvenance`] to the value and call `check_send` instead.
    pub fn check_callable_send(&self, captures: &[(&str, &Type)]) -> (result: Result<
        (),
        ThreadSafetyError,
    >)
        ensures
            verdict_view(result) == named_captures_from(self@, captures@, 0),
    {
        let mut i: usize = 0;
        while i < captures.len()
            invariant
                i <= captures.len(),
                named_captures_from(self@, captures@, i as int) == named_captures_from(
                    self@,
                    captures@,
                    0,
                ),
            decreases captures.len() - i,
        {
            let root = concat3("capture `", captures[i].0, "`");
            match self.check_send(root.as_str(), captures[i].1) {
                Ok(()) => {},
                Err(error) => {
                    return Err(error);
                },
            }
            i += 1;
        }
        Ok(())
    }

    /// Source/MIR integration gate for `spawn`.
    ///
    /// The emission callback is invoked only after the task environment and
    /// result type pass `Send`, so a rejected source expression cannot leave a
    /// runtime call in partially built MIR.
    pub fn validate_spawn_then<T, F: FnOnce() -> T>(
        &self,
        task: &ThreadSafetyType,
        result: &ThreadSafetyType,
        emit_runtime_mir: F,
    ) -> (outcome: Result<T, ThreadSafetyError>)
        requires
            spawn_verdict(self@, task@, result@) is Ok ==> emit_runtime_mir.requires(()),
        ensures
            match outcome {
                Ok(emitted) => spawn_verdict(self@, task@, result@) is Ok
                    && emit_runtime_mir.ensures((), emitted),
                Err(error) => spawn_verdict(self@, task@, result@) == Err::<
                    (),
                    ThreadSafetyErrorView,
                >(error@),
            },
    {
        match self.check_send("spawn task", task) {
            Ok(()) => {},
            Err(error) => {
                return Err(error);
            },
        }
        match self.check_send("spawn result", result) {
            Ok(()) => {},
            Err(error) => {
                return Err(error);
            },
        }
        Ok(emit_runtime_mir())
    }
}

/// Side table used by source and MIR lowering to keep callable environment
/// provenance attached while the erased three-pointer callable value moves.
///
/// `K` may be a resolver value id, MIR local id, aggregate slot id, or a
/// dedicated returned-value id. Moves remove the source entry, preventing a
/// stale source local from later being accepted as thread-safe.
///
/// What the operations do is stated for key types that hash and compare as
/// their values do.
#[derive(Debug, Clone)]
#[verifier::reject_recursive_types(K)]
pub struct CallableProvenanceTable<K> {
    values: HashMap<K, CallableSendProvenance>,
}

impl<K> View for CallableProvenanceTable<K> {
    type V = Map<K, CallableSendProvenance>;

    closed spec fn view(&self) -> Map<K, CallableSendProvenance> {
        self.values@
    }
}

impl<K> Default for CallableProvenanceTable<K> {
    fn default() -> (table: CallableProvenanceTable<K>)
        ensures
            table@ == Map::<K, CallableSendProvenance>::empty(),
    {
        CallableProvenanceTable { values: HashMap::new() }
    }
}

/// The table after the entry of `source` has moved to `destination`.
pub open spec fn moved_provenance<K>(
    table: Map<K, CallableSendProvenance>,
    source: K,
    destination: K,
) -> Map<K, CallableSendProvenance> {
    if table.contains_key(source) {
        table.remove(source).insert(destination, table[source])
    } else {
        table
    }
}

impl<K: Eq + Hash> CallableProvenanceTable<K> {
    pub fn insert(&mut self, place: K, provenance: CallableSendProvenance)
        ensures
            obeys_key_model::<K>() ==> final(self)@ == old(self)@.insert(place, provenance),
    {
        self.values.insert(place, provenance);
    }

    pub fn get(&self, place: &K) -> (provenance: Option<&CallableSendProvenance>)
        ensures
            obeys_key_model::<K>() ==> match provenance {
                Some(found) => self@.contains_key(*place) && *found == self@[*place],
                None => !self@.contains_key(*place),
            },
    {
        self.values.get(place)
    }

    /// Moves the entry of `source`, and says whether there was one.
    pub fn move_to(&mut self, source: &K, destination: K) -> (moved: bool)
        ensures
            obeys_key_model::<K>() ==> moved == old(self)@.contains_key(*source),
            obeys_key_model::<K>() ==> final(self)@ == moved_provenance(
                old(self)@,
                *source,
                destination,
            ),
    {
        match self.values.remove(source) {
            Some(provenance) => {
                self.values.insert(destination, provenance);
                true
            },
            None => {
                assert(obeys_key_model::<K>() ==> self.values@ =~= old(self).values@);
                false
            },
        }
    }

    pub fn store(&mut self, source: &K, storage: K) -> (moved: bool)
        ensures
            obeys_key_model::<K>() ==> moved == old(self)@.contains_key(*source),
            obeys_key_model::<K>() ==> final(self)@ == moved_provenance(
                old(self)@,
                *source,
                storage,
            ),
    {
        self.move_to(source, storage)
    }

    pub fn take_returned(&mut self, source: &K) -> (taken: Option<CallableSendProvenance>)
        ensures
            obeys_key_model::<K>() ==> final(self)@ == old(self)@.remove(*source),
            obeys_key_model::<K>() ==> match taken {
                Some(provenance) => old(self)@.contains_key(*source) && provenance == old(
                    self,
                )@[*source],
                None => !old(self)@.contains_key(*source),
            },
    {
        self.values.remove(source)
    }

    pub fn restore_returned(&mut self, destination: K, provenance: CallableSendProvenance)
        ensures
            obeys_key_model::<K>() ==> final(self)@ == old(self)@.insert(destination, provenance),
    {
        self.values.insert(destination, provenance);
    }
}

/// A moved callable keeps its provenance at the destination, the source has
/// none afterwards, and no other place is affected.
pub proof fn moving_a_callable_moves_its_provenance<K>(
    table: Map<K, CallableSendProvenance>,
    source: K,
    destination: K,
    other: K,
)
    requires
        table.contains_key(source),
    ensures
        moved_provenance(table, source, destination).contains_key(destination),
        moved_provenance(table, source, destination)[destination] == table[source],
        source != destination ==> !moved_provenance(table, source, destination).contains_key(
            source,
        ),
        other != source && other != destination ==> {
            &&& moved_provenance(table, source, destination).contains_key(other)
                == table.contains_key(other)
            &&& moved_provenance(table, source, destination)[other] == table[other]
        },
{
}

/// A callable can be taken once: the place that it was taken from holds none
/// until one is put there again, and no other place is affected. Giving it back
/// restores the table.
pub proof fn a_callable_is_taken_once<K>(
    table: Map<K, CallableSendProvenance>,
    source: K,
    other: K,
)
    requires
        table.contains_key(source),
    ensures
        !table.remove(source).contains_key(source),
        table.remove(source).remove(source) == table.remove(source),
        other != source ==> {
            &&& table.remove(source).contains_key(other) == table.contains_key(other)
            &&& table.remove(source)[other] == table[other]
        },
        table.remove(source).insert(source, table[source]) == table,
{
    assert(table.remove(source).remove(source) =~= table.remove(source));
    assert(table.remove(source).insert(source, table[source]) =~= table);
}

/// The places of lowered code are numbers, which are good keys: for them the
/// tables of callable provenance do what their contracts say, unconditionally.
pub proof fn numbered_places_are_good_keys()
    ensures
        obeys_key_model::<u32>(),
        obeys_key_model::<u64>(),
        obeys_key_model::<usize>(),
{
    broadcast use vstd::std_specs::hash::group_hash_axioms;

}

proof fn plain_outcome_ignores_place(
    defs: DefinitionsView,
    ty: TypeView,
    requirement: ThreadSafetyRequirement,
    visiting: Seq<(bool, Seq<char>)>,
    here: (Seq<char>, Seq<ConstraintView>),
    there: (Seq<char>, Seq<ConstraintView>),
)
    ensures
        plain_verdict(defs, ty, requirement, here.0, visiting, here.1) is Ok == plain_verdict(
            defs,
            ty,
            requirement,
            there.0,
            visiting,
            there.1,
        ) is Ok,
    decreases unvisited(defs, visiting), 1nat, ty, 0nat,
{
    match ty {
        TypeView::Own(inner) => {
            plain_outcome_ignores_place(defs, *inner, requirement, visiting, here, there);
        },
        TypeView::Array(inner, _) => {
            plain_outcome_ignores_place(
                defs,
                *inner,
                requirement,
                visiting,
                (here.0 + "[]"@, here.1),
                (there.0 + "[]"@, there.1),
            );
        },
        TypeView::Tuple(elements) => {
            plain_elements_ignore_place(defs, elements, 0, requirement, visiting, here, there);
        },
        TypeView::Named(name) => {
            struct_outcome_ignores_place(defs, name, requirement, visiting, here, there);
        },
        TypeView::Enum(name) => {
            enum_outcome_ignores_place(defs, name, requirement, visiting, here, there);
        },
        _ => {},
    }
}

proof fn plain_elements_ignore_place(
    defs: DefinitionsView,
    elements: Seq<TypeView>,
    i: nat,
    requirement: ThreadSafetyRequirement,
    visiting: Seq<(bool, Seq<char>)>,
    here: (Seq<char>, Seq<ConstraintView>),
    there: (Seq<char>, Seq<ConstraintView>),
)
    ensures
        plain_elements_from(defs, elements, i, requirement, here.0, visiting, here.1) is Ok
            == plain_elements_from(
            defs,
            elements,
            i,
            requirement,
            there.0,
            visiting,
            there.1,
        ) is Ok,
    decreases unvisited(defs, visiting), 1nat, elements, elements.len() - i,
{
    if i < elements.len() {
        plain_outcome_ignores_place(
            defs,
            elements[i as int],
            requirement,
            visiting,
            (here.0 + "["@ + decimal_text(i) + "]"@, here.1),
            (there.0 + "["@ + decimal_text(i) + "]"@, there.1),
        );
        plain_elements_ignore_place(defs, elements, i + 1, requirement, visiting, here, there);
    }
}

proof fn struct_outcome_ignores_place(
    defs: DefinitionsView,
    name: Seq<char>,
    requirement: ThreadSafetyRequirement,
    visiting: Seq<(bool, Seq<char>)>,
    here: (Seq<char>, Seq<ConstraintView>),
    there: (Seq<char>, Seq<ConstraintView>),
)
    ensures
        struct_verdict(defs, name, requirement, here.0, visiting, here.1) is Ok == struct_verdict(
            defs,
            name,
            requirement,
            there.0,
            visiting,
            there.1,
        ) is Ok,
    decreases unvisited(defs, visiting), 0nat, name, 0nat,
{
    entering_a_definition_leaves_fewer(defs, visiting, (false, name));
    match value_of(defs.structs, name) {
        Some(definition) => {
            if !visiting.contains((false, name)) {
                fields_ignore_place(
                    defs,
                    definition.fields@,
                    0,
                    requirement,
                    visiting.push((false, name)),
                    here,
                    there,
                );
            }
        },
        None => {},
    }
}

proof fn fields_ignore_place(
    defs: DefinitionsView,
    fields: Seq<(String, Type)>,
    i: int,
    requirement: ThreadSafetyRequirement,
    visiting: Seq<(bool, Seq<char>)>,
    here: (Seq<char>, Seq<ConstraintView>),
    there: (Seq<char>, Seq<ConstraintView>),
)
    ensures
        fields_from(defs, fields, i, requirement, here.0, visiting, here.1) is Ok == fields_from(
            defs,
            fields,
            i,
            requirement,
            there.0,
            visiting,
            there.1,
        ) is Ok,
    decreases unvisited(defs, visiting), 2nat, fields, fields.len() - i,
{
    if 0 <= i < fields.len() {
        plain_outcome_ignores_place(
            defs,
            fields[i].1@,
            requirement,
            visiting,
            (here.0 + "."@ + fields[i].0@, here.1),
            (there.0 + "."@ + fields[i].0@, there.1),
        );
        fields_ignore_place(defs, fields, i + 1, requirement, visiting, here, there);
    }
}

proof fn enum_outcome_ignores_place(
    defs: DefinitionsView,
    name: Seq<char>,
    requirement: ThreadSafetyRequirement,
    visiting: Seq<(bool, Seq<char>)>,
    here: (Seq<char>, Seq<ConstraintView>),
    there: (Seq<char>, Seq<ConstraintView>),
)
    ensures
        enum_verdict(defs, name, requirement, here.0, visiting, here.1) is Ok == enum_verdict(
            defs,
            name,
            requirement,
            there.0,
            visiting,
            there.1,
        ) is Ok,
    decreases unvisited(defs, visiting), 0nat, name, 0nat,
{
    entering_a_definition_leaves_fewer(defs, visiting, (true, name));
    match value_of(defs.enums, name) {
        Some(definition) => {
            if !visiting.contains((true, name)) {
                variants_ignore_place(
                    defs,
                    definition.variants@,
                    0,
                    requirement,
                    visiting.push((true, name)),
                    here,
                    there,
                );
            }
        },
        None => {},
    }
}

proof fn variants_ignore_place(
    defs: DefinitionsView,
    variants: Seq<EnumVariant>,
    i: int,
    requirement: ThreadSafetyRequirement,
    visiting: Seq<(bool, Seq<char>)>,
    here: (Seq<char>, Seq<ConstraintView>),
    there: (Seq<char>, Seq<ConstraintView>),
)
    ensures
        variants_from(defs, variants, i, requirement, here.0, visiting, here.1) is Ok
            == variants_from(
            defs,
            variants,
            i,
            requirement,
            there.0,
            visiting,
            there.1,
        ) is Ok,
    decreases unvisited(defs, visiting), 2nat, variants, variants.len() - i,
{
    if 0 <= i < variants.len() {
        match variants[i].payload {
            Some(payload) => {
                plain_outcome_ignores_place(
                    defs,
                    payload@,
                    requirement,
                    visiting,
                    (here.0 + "::"@ + variants[i].name@, here.1),
                    (there.0 + "::"@ + variants[i].name@, there.1),
                );
            },
            None => {},
        }
        variants_ignore_place(defs, variants, i + 1, requirement, visiting, here, there);
    }
}

/// Whether a value is safe depends neither on where it stands nor on the names
/// under which policies were registered.
proof fn outcome_ignores_names(
    reg: RegistryView,
    other: RegistryView,
    bound: nat,
    ty: ThreadSafetyTypeView,
    requirement: ThreadSafetyRequirement,
    here: (Seq<char>, Seq<ConstraintView>),
    there: (Seq<char>, Seq<ConstraintView>),
)
    requires
        reg.has_policies_of(other),
    ensures
        verdict(reg, bound, ty, requirement, here.0, here.1) is Ok == verdict(
            other,
            bound,
            ty,
            requirement,
            there.0,
            there.1,
        ) is Ok,
    decreases bound, 1nat, ty, 0nat,
{
    match ty {
        ThreadSafetyTypeView::Plain(ty) => {
            plain_outcome_ignores_place(reg.defs, ty, requirement, Seq::empty(), here, there);
        },
        ThreadSafetyTypeView::Own(inner) => {
            outcome_ignores_names(reg, other, bound, *inner, requirement, here, there);
        },
        ThreadSafetyTypeView::Array { element, .. } => {
            outcome_ignores_names(
                reg,
                other,
                bound,
                *element,
                requirement,
                (here.0 + "[]"@, here.1),
                (there.0 + "[]"@, there.1),
            );
        },
        ThreadSafetyTypeView::Tuple(elements) => {
            elements_ignore_place(reg, other, bound, elements, 0, requirement, here, there);
        },
        ThreadSafetyTypeView::Application { constructor, args } => {
            match (reg.constructor(constructor), other.constructor(constructor)) {
                (Some((name, policy)), Some((alias, _))) => {
                    rules_ignore_names(policy, name, alias, requirement);
                    match (policy.rule(name, requirement), policy.rule(alias, requirement)) {
                        (
                            ApplicationRuleView::Requires(asked),
                            ApplicationRuleView::Requires(renamed),
                        ) => {
                            obligations_ignore_place(
                                reg,
                                other,
                                bound,
                                args,
                                (asked, renamed),
                                0,
                                here,
                                there,
                            );
                        },
                        _ => {},
                    }
                },
                _ => {},
            }
        },
        ThreadSafetyTypeView::Nominal(identity) => {
            match (reg.nominal(identity, bound), other.nominal(identity, bound)) {
                (Some((name, policy)), Some((alias, _))) => {
                    reveal_with_fuel(verdict, 3);
                    let rule = layout_rule(name, policy);
                    let renamed = layout_rule(alias, policy);
                    layout_ignores_place(
                        reg,
                        other,
                        identity.position() as nat,
                        policy,
                        requirement,
                        (here.0, constrained(here.1, here.0, requirement, rule)),
                        (there.0, constrained(there.1, there.0, requirement, renamed)),
                    );
                },
                _ => {
                    reveal_with_fuel(verdict, 2);
                },
            }
        },
        ThreadSafetyTypeView::Callable { signature, provenance } => {
            match provenance {
                SendProvenanceView::OwnedClosure { origin, captures } => {
                    captures_ignore_place(reg, other, bound, origin, captures, 0, here, there);
                },
                _ => {},
            }
        },
    }
}

proof fn elements_ignore_place(
    reg: RegistryView,
    other: RegistryView,
    bound: nat,
    elements: Seq<ThreadSafetyTypeView>,
    i: nat,
    requirement: ThreadSafetyRequirement,
    here: (Seq<char>, Seq<ConstraintView>),
    there: (Seq<char>, Seq<ConstraintView>),
)
    requires
        reg.has_policies_of(other),
    ensures
        elements_from(reg, bound, elements, i, requirement, here.0, here.1) is Ok
            == elements_from(other, bound, elements, i, requirement, there.0, there.1) is Ok,
    decreases bound, 1nat, elements, elements.len() - i,
{
    if i < elements.len() {
        outcome_ignores_names(
            reg,
            other,
            bound,
            elements[i as int],
            requirement,
            (here.0 + "["@ + decimal_text(i) + "]"@, here.1),
            (there.0 + "["@ + decimal_text(i) + "]"@, there.1),
        );
        elements_ignore_place(reg, other, bound, elements, i + 1, requirement, here, there);
    }
}

/// What two obligations have in common that differ in their rule's wording.
spec fn same_obligations(asked: Seq<ObligationView>, renamed: Seq<ObligationView>) -> bool {
    &&& asked.len() == renamed.len()
    &&& forall|i: int|
        0 <= i < asked.len() ==> {
            &&& (#[trigger] asked[i]).index == renamed[i].index
            &&& asked[i].requirement == renamed[i].requirement
            &&& asked[i].suffix == renamed[i].suffix
        }
}

proof fn rules_ignore_names(
    policy: ApplicationPolicyView,
    name: Seq<char>,
    alias: Seq<char>,
    requirement: ThreadSafetyRequirement,
)
    ensures
        match (policy.rule(name, requirement), policy.rule(alias, requirement)) {
            (
                ApplicationRuleView::Requires(asked),
                ApplicationRuleView::Requires(renamed),
            ) => same_obligations(asked, renamed),
            (ApplicationRuleView::Denied(reason), ApplicationRuleView::Denied(other)) => reason
                == other,
            _ => false,
        },
{
}

proof fn obligations_ignore_place(
    reg: RegistryView,
    other: RegistryView,
    bound: nat,
    args: Seq<ThreadSafetyTypeView>,
    obligations: (Seq<ObligationView>, Seq<ObligationView>),
    i: int,
    here: (Seq<char>, Seq<ConstraintView>),
    there: (Seq<char>, Seq<ConstraintView>),
)
    requires
        reg.has_policies_of(other),
        same_obligations(obligations.0, obligations.1),
    ensures
        obligations_from(reg, bound, args, obligations.0, i, here.0, here.1) is Ok
            == obligations_from(other, bound, args, obligations.1, i, there.0, there.1) is Ok,
    decreases bound, 1nat, args, obligations.0.len() - i,
{
    if 0 <= i < obligations.0.len() && 0 <= obligations.0[i].index < args.len() {
        let asked = obligations.0[i];
        let renamed = obligations.1[i];
        let a = here.0 + asked.suffix;
        let b = there.0 + asked.suffix;
        outcome_ignores_names(
            reg,
            other,
            bound,
            args[asked.index],
            asked.requirement,
            (a, constrained(here.1, a, asked.requirement, asked.rule)),
            (b, constrained(there.1, b, asked.requirement, renamed.rule)),
        );
        obligations_ignore_place(reg, other, bound, args, obligations, i + 1, here, there);
    }
}

proof fn captures_ignore_place(
    reg: RegistryView,
    other: RegistryView,
    bound: nat,
    origin: Seq<char>,
    captures: Seq<CaptureProvenanceView>,
    i: int,
    here: (Seq<char>, Seq<ConstraintView>),
    there: (Seq<char>, Seq<ConstraintView>),
)
    requires
        reg.has_policies_of(other),
    ensures
        captures_from(reg, bound, origin, captures, i, here.0, here.1) is Ok == captures_from(
            other,
            bound,
            origin,
            captures,
            i,
            there.0,
            there.1,
        ) is Ok,
    decreases bound, 1nat, captures, captures.len() - i,
{
    if 0 <= i < captures.len() {
        let a = here.0 + ".capture `"@ + captures[i].name + "`"@;
        let b = there.0 + ".capture `"@ + captures[i].name + "`"@;
        let rule = "owned closure `"@ + origin + "` requires every capture to be Send"@;
        outcome_ignores_names(
            reg,
            other,
            bound,
            captures[i].ty,
            ThreadSafetyRequirement::Send,
            (a, constrained(here.1, a, ThreadSafetyRequirement::Send, rule)),
            (b, constrained(there.1, b, ThreadSafetyRequirement::Send, rule)),
        );
        captures_ignore_place(reg, other, bound, origin, captures, i + 1, here, there);
    }
}

proof fn layout_ignores_place(
    reg: RegistryView,
    other: RegistryView,
    bound: nat,
    policy: NominalPolicyView,
    requirement: ThreadSafetyRequirement,
    here: (Seq<char>, Seq<ConstraintView>),
    there: (Seq<char>, Seq<ConstraintView>),
)
    requires
        reg.has_policies_of(other),
    ensures
        layout_verdict(reg, bound, policy, requirement, here.0, here.1) is Ok == layout_verdict(
            other,
            bound,
            policy,
            requirement,
            there.0,
            there.1,
        ) is Ok,
    decreases bound, 3nat, policy, 0nat,
{
    match policy {
        NominalPolicyView::StructuralStruct { definition } => {
            struct_outcome_ignores_place(
                reg.defs,
                definition,
                requirement,
                Seq::empty(),
                here,
                there,
            );
        },
        NominalPolicyView::StructuralEnum { definition } => {
            enum_outcome_ignores_place(
                reg.defs,
                definition,
                requirement,
                Seq::empty(),
                here,
                there,
            );
        },
        NominalPolicyView::MonomorphicStruct { fields } => {
            monomorphic_fields_ignore_place(reg, other, bound, fields, 0, requirement, here, there);
        },
        NominalPolicyView::MonomorphicEnum { variants } => {
            monomorphic_variants_ignore_place(reg, other, bound, variants, 0, requirement, here, there);
        },
        _ => {},
    }
}

proof fn monomorphic_fields_ignore_place(
    reg: RegistryView,
    other: RegistryView,
    bound: nat,
    fields: Seq<(Seq<char>, ThreadSafetyTypeView)>,
    i: int,
    requirement: ThreadSafetyRequirement,
    here: (Seq<char>, Seq<ConstraintView>),
    there: (Seq<char>, Seq<ConstraintView>),
)
    requires
        reg.has_policies_of(other),
    ensures
        monomorphic_fields_from(reg, bound, fields, i, requirement, here.0, here.1) is Ok
            == monomorphic_fields_from(other, bound, fields, i, requirement, there.0, there.1) is Ok,
    decreases bound, 2nat, fields, fields.len() - i,
{
    if 0 <= i < fields.len() {
        outcome_ignores_names(
            reg,
            other,
            bound,
            fields[i].1,
            requirement,
            (here.0 + "."@ + fields[i].0, here.1),
            (there.0 + "."@ + fields[i].0, there.1),
        );
        monomorphic_fields_ignore_place(reg, other, bound, fields, i + 1, requirement, here, there);
    }
}

proof fn monomorphic_variants_ignore_place(
    reg: RegistryView,
    other: RegistryView,
    bound: nat,
    variants: Seq<(Seq<char>, Option<ThreadSafetyTypeView>)>,
    i: int,
    requirement: ThreadSafetyRequirement,
    here: (Seq<char>, Seq<ConstraintView>),
    there: (Seq<char>, Seq<ConstraintView>),
)
    requires
        reg.has_policies_of(other),
    ensures
        monomorphic_variants_from(reg, bound, variants, i, requirement, here.0, here.1) is Ok
            == monomorphic_variants_from(
            other,
            bound,
            variants,
            i,
            requirement,
            there.0,
            there.1,
        ) is Ok,
    decreases bound, 2nat, variants, variants.len() - i,
{
    if 0 <= i < variants.len() {
        match variants[i].1 {
            Some(payload) => {
                outcome_ignores_names(
                    reg,
                    other,
                    bound,
                    payload,
                    requirement,
                    (here.0 + "::"@ + variants[i].0, here.1),
                    (there.0 + "::"@ + variants[i].0, there.1),
                );
            },
            None => {},
        }
        monomorphic_variants_ignore_place(reg, other, bound, variants, i + 1, requirement, here, there);
    }
}

/// Whether a value is safe does not depend on where it stands: neither its path
/// nor the constraints above it change the outcome.
pub proof fn outcome_ignores_place(
    reg: RegistryView,
    bound: nat,
    ty: ThreadSafetyTypeView,
    requirement: ThreadSafetyRequirement,
    here: (Seq<char>, Seq<ConstraintView>),
    there: (Seq<char>, Seq<ConstraintView>),
)
    ensures
        verdict(reg, bound, ty, requirement, here.0, here.1) is Ok == verdict(
            reg,
            bound,
            ty,
            requirement,
            there.0,
            there.1,
        ) is Ok,
{
    outcome_ignores_names(reg, reg, bound, ty, requirement, here, there);
}

/// Whether a value may be moved to another thread, or shared between threads.
pub open spec fn is_safe(
    reg: RegistryView,
    ty: ThreadSafetyTypeView,
    requirement: ThreadSafetyRequirement,
) -> bool {
    root_verdict(reg, ty, requirement, Seq::empty()) is Ok
}

/// A check at any root path succeeds exactly on safe values.
pub proof fn checks_decide_safety(
    reg: RegistryView,
    ty: ThreadSafetyTypeView,
    requirement: ThreadSafetyRequirement,
    root: Seq<char>,
)
    ensures
        root_verdict(reg, ty, requirement, root) is Ok == is_safe(reg, ty, requirement),
{
    outcome_ignores_place(
        reg,
        reg.nominals.len(),
        ty,
        requirement,
        (root, Seq::empty()),
        (Seq::empty(), Seq::empty()),
    );
}

/// What each canonical container asks of its contents, as an equivalence: an
/// `Arc` needs contents that are both `Send` and `Sync`, whichever of the two
/// is asked of the `Arc`; a `Mutex` needs only `Send` contents and makes them
/// shareable; join handles and channel endpoints can be moved when what they
/// carry can, and are never shared.
pub proof fn canonical_containers_pass_safety_on(
    reg: RegistryView,
    constructor: CanonicalConstructorId,
    arg: ThreadSafetyTypeView,
    requirement: ThreadSafetyRequirement,
)
    requires
        reg.constructor(constructor) is Some,
    ensures
        ({
            let (_, policy) = reg.constructor(constructor)->0;
            let send = is_safe(reg, arg, ThreadSafetyRequirement::Send);
            let sync = is_safe(reg, arg, ThreadSafetyRequirement::Sync);
            let safe = is_safe(
                reg,
                ThreadSafetyTypeView::Application { constructor, args: seq![arg] },
                requirement,
            );
            match policy {
                ApplicationPolicyView::Vec | ApplicationPolicyView::Option => safe
                    == is_safe(reg, arg, requirement),
                ApplicationPolicyView::Arc => safe == (send && sync),
                ApplicationPolicyView::Mutex => safe == send,
                ApplicationPolicyView::JoinHandle
                | ApplicationPolicyView::Sender
                | ApplicationPolicyView::Receiver => safe == (send && requirement
                    == ThreadSafetyRequirement::Send),
                ApplicationPolicyView::KeyedMap | ApplicationPolicyView::Result => !safe,
                ApplicationPolicyView::Deny { .. } => !safe,
                ApplicationPolicyView::Audited { arity, send: moves, sync: shares, .. } => safe
                    == (arity == 1 && audit_allows(moves, shares, requirement)),
            }
        }),
{
    let (name, policy) = reg.constructor(constructor)->0;
    let args = seq![arg];
    let bound = reg.nominals.len();
    match policy.rule(name, requirement) {
        ApplicationRuleView::Requires(obligations) => {
            reveal_with_fuel(obligations_from, 3);
            if args.len() == policy.arity() {
                assert(root_verdict(
                    reg,
                    ThreadSafetyTypeView::Application { constructor, args },
                    requirement,
                    Seq::empty(),
                ) == obligations_from(
                    reg,
                    bound,
                    args,
                    obligations,
                    0,
                    Seq::empty(),
                    Seq::empty(),
                ));
                assert(args[0] == arg);
                if obligations.len() > 0 {
                    argument_outcome_is_safety(reg, arg, obligations[0]);
                }
                if obligations.len() > 1 {
                    argument_outcome_is_safety(reg, arg, obligations[1]);
                }
            }
        },
        _ => {},
    }
}

proof fn argument_outcome_is_safety(
    reg: RegistryView,
    arg: ThreadSafetyTypeView,
    asked: ObligationView,
)
    ensures
        ({
            let path = Seq::<char>::empty() + asked.suffix;
            verdict(
                reg,
                reg.nominals.len(),
                arg,
                asked.requirement,
                path,
                constrained(Seq::empty(), path, asked.requirement, asked.rule),
            ) is Ok == is_safe(reg, arg, asked.requirement)
        }),
{
    let path = Seq::<char>::empty() + asked.suffix;
    outcome_ignores_place(
        reg,
        reg.nominals.len(),
        arg,
        asked.requirement,
        (path, constrained(Seq::empty(), path, asked.requirement, asked.rule)),
        (Seq::empty(), Seq::empty()),
    );
}

/// An identity of another identity space is rejected, whatever policies and
/// display names the registry has.
pub proof fn foreign_identities_are_rejected(
    reg: RegistryView,
    constructor: CanonicalConstructorId,
    nominal: CanonicalNominalId,
    args: Seq<ThreadSafetyTypeView>,
    requirement: ThreadSafetyRequirement,
    root: Seq<char>,
)
    ensures
        constructor.space() != reg.space ==> root_verdict(
            reg,
            ThreadSafetyTypeView::Application { constructor, args },
            requirement,
            root,
        ) == rejection(
            requirement,
            root,
            "generic constructor identity did not originate from this compilation registry"@,
            Seq::empty(),
        ),
        nominal.space() != reg.space ==> root_verdict(
            reg,
            ThreadSafetyTypeView::Nominal(nominal),
            requirement,
            root,
        ) == rejection(
            requirement,
            root,
            "nominal type identity did not originate from this compilation registry"@,
            Seq::empty(),
        ),
{
    reveal_with_fuel(verdict, 2);
}

/// The identity space that a source hands out after as many others.
pub open spec fn space_drawn(first: u64, draws: nat) -> u64
    decreases draws,
{
    if draws == 0 {
        first
    } else {
        space_after(space_drawn(first, (draws - 1) as nat))
    }
}

proof fn spaces_are_numbered(first: u64, draws: nat)
    ensures
        space_drawn(first, draws) == (first + draws) % (u64::MAX + 1),
    decreases draws,
{
    if draws > 0 {
        spaces_are_numbered(first, (draws - 1) as nat);
    }
}

/// An identity says which entry of which registry it was issued for.
pub proof fn issued_identities_name_their_place(space: u64, position: int)
    requires
        0 <= position <= u32::MAX,
    ensures
        CanonicalConstructorId::issued(space, position).space() == space,
        CanonicalConstructorId::issued(space, position).position() == position,
        CanonicalNominalId::issued(space, position).space() == space,
        CanonicalNominalId::issued(space, position).position() == position,
{
}

/// Identities tell registrations apart: two that were issued for different
/// positions of one registry differ, and so do two of different registries whose
/// spaces come from one source, as long as a registry issues no more than
/// `u32::MAX + 1` of a kind and the source hands out no more than
/// `u64::MAX + 1` spaces.
pub proof fn identities_are_told_apart(
    first: u64,
    draws: nat,
    position: int,
    later_draws: nat,
    later_position: int,
)
    requires
        draws <= later_draws <= u64::MAX,
        0 <= position <= u32::MAX,
        0 <= later_position <= u32::MAX,
        draws < later_draws || position != later_position,
    ensures
        CanonicalConstructorId::issued(space_drawn(first, draws), position)
            != CanonicalConstructorId::issued(space_drawn(first, later_draws), later_position),
        CanonicalNominalId::issued(space_drawn(first, draws), position)
            != CanonicalNominalId::issued(space_drawn(first, later_draws), later_position),
        draws < later_draws ==> space_drawn(first, draws) != space_drawn(first, later_draws),
{
    spaces_are_numbered(first, draws);
    spaces_are_numbered(first, later_draws);
}

/// Display names select no policy: registries that differ in nothing else agree
/// on which values are safe.
pub proof fn display_names_select_no_policy(
    reg: RegistryView,
    other: RegistryView,
    ty: ThreadSafetyTypeView,
    requirement: ThreadSafetyRequirement,
)
    requires
        reg.has_policies_of(other),
    ensures
        is_safe(reg, ty, requirement) == is_safe(other, ty, requirement),
{
    outcome_ignores_names(
        reg,
        other,
        reg.nominals.len(),
        ty,
        requirement,
        (Seq::empty(), Seq::empty()),
        (Seq::empty(), Seq::empty()),
    );
}

/// The spelling of a type never selects a policy: a generic application without
/// a canonical identity is rejected, whatever its name.
pub proof fn source_spelling_selects_no_policy(
    reg: RegistryView,
    base: Seq<char>,
    args: Seq<TypeView>,
    requirement: ThreadSafetyRequirement,
)
    ensures
        !is_safe(
            reg,
            ThreadSafetyTypeView::Plain(TypeView::App { base, args }),
            requirement,
        ),
{
}

/// A callable is never shared between threads, and a closure is moved only if
/// each of its captures can be.
pub proof fn callables_move_with_their_captures(
    reg: RegistryView,
    signature: TypeView,
    origin: Seq<char>,
    captures: Seq<CaptureProvenanceView>,
)
    ensures
        ({
            let ty = ThreadSafetyTypeView::Callable {
                signature,
                provenance: SendProvenanceView::OwnedClosure { origin, captures },
            };
            &&& !is_safe(reg, ty, ThreadSafetyRequirement::Sync)
            &&& is_safe(reg, ty, ThreadSafetyRequirement::Send) == (signature is Function
                && forall|i: int|
                0 <= i < captures.len() ==> is_safe(
                    reg,
                    (#[trigger] captures[i]).ty,
                    ThreadSafetyRequirement::Send,
                ))
        }),
{
    captures_outcome(reg, origin, captures, 0);
}

proof fn captures_outcome(
    reg: RegistryView,
    origin: Seq<char>,
    captures: Seq<CaptureProvenanceView>,
    i: int,
)
    requires
        0 <= i,
    ensures
        captures_from(
            reg,
            reg.nominals.len(),
            origin,
            captures,
            i,
            Seq::empty(),
            Seq::empty(),
        ) is Ok == (forall|j: int|
            i <= j < captures.len() ==> is_safe(
                reg,
                (#[trigger] captures[j]).ty,
                ThreadSafetyRequirement::Send,
            )),
    decreases captures.len() - i,
{
    if i < captures.len() {
        captures_outcome(reg, origin, captures, i + 1);
        let path = Seq::<char>::empty() + ".capture `"@ + captures[i].name + "`"@;
        outcome_ignores_place(
            reg,
            reg.nominals.len(),
            captures[i].ty,
            ThreadSafetyRequirement::Send,
            (
                path,
                constrained(
                    Seq::empty(),
                    path,
                    ThreadSafetyRequirement::Send,
                    "owned closure `"@ + origin + "` requires every capture to be Send"@,
                ),
            ),
            (Seq::empty(), Seq::empty()),
        );
    }
}

} // verus!
