//! Which code a call or a method call goes to.

use std::collections::HashSet;
use vstd::prelude::*;

use crate::ast::{Expr, Ident};
use crate::atomic::AtomicScalar;
use crate::diag::Span;
use crate::lower::arc::method_result_view;
use crate::lower::atomics::{constructed_scalar, constructor_scalar, AtomicMethod, AtomicStep};
use crate::lower::call::{
    or_unit, params_view, CallFrame, CallStep, CallStepView, CallTarget, FrameView, TargetView,
};
use crate::lower::context::LowerCtx;
use crate::lower::infer::{named_struct, struct_named};
use crate::lower::spsc::{EndpointStep, EndpointStepView};
use crate::lower::state::LowerState;
use crate::lower::values::{
    lowered_option_view, rvalue_option_view, LoweredValue, LoweredView,
};
use crate::mir::{LocalId, MirValue, Rvalue, RvalueView};
use crate::resolver::{MethodInfo, SelfKind};
use crate::table::{value_of, NameMap};
use crate::text::{begins_with, concat5, ends_with, finishes_with, same_text, starts_with};
use crate::types::{type_option_view, type_ref_view, Mutability, Type, TypeView};

verus! {

broadcast use vstd::std_specs::hash::group_hash_axioms;

/// Static calls that the compiler lowers itself.
#[derive(Debug, Clone, Copy, PartialEq, Eq, Structural)]
pub enum StaticBuiltin {
    Spawn,
    Scope,
    Channel,
    ArcNew,
    MutexNew,
    OwnNew,
    OwnFromRaw,
    SharedNew,
    AtomicNew(AtomicScalar),
    TerminalStdout,
    VecNew,
    VecWithCapacity,
    MapNew,
    MapWithCapacity,
    FileOpen { create: bool },
    StringFromStr,
    Print { newline: bool, to_stderr: bool },
}

/// Methods that the compiler lowers itself.
#[derive(Debug, Clone, Copy, PartialEq, Eq, Structural)]
pub enum BuiltinMethod {
    VecLen,
    StringLen,
    ArrayLen,
    StringAsStr,
    VecPush,
    VecPop,
    VecGet,
    MapAdd,
    MapUpdate,
    MapDel,
    MapGet,
    MapHas,
    MapKeys,
    MapVals,
    FileReadToString,
    FileWriteString,
    FileClose,
    StringConcat,
    StringSlice,
    StringTrim,
    StringSplit,
    StringStartsWith,
    StringEndsWith,
    StringClone,
    OwnIntoRaw,
    SharedClone,
}

impl LowerState {
    /// Whether a name denotes the compiler-owned thread scope.
    pub open spec fn is_scope(self, name: Seq<char>) -> bool {
        self.resolver.names_function(name, "std/thread"@, "scope"@)
    }

    /// The static call that the compiler lowers itself. What carries compiler
    /// privilege is selected by the declaration that the name resolves to.
    pub open spec fn static_builtin(self, name: Seq<char>) -> Option<StaticBuiltin> {
        if self.is_spawn(name) {
            Some(StaticBuiltin::Spawn)
        } else if self.is_scope(name) {
            Some(StaticBuiltin::Scope)
        } else if self.is_channel(name) {
            Some(StaticBuiltin::Channel)
        } else if self.is_arc_new(name) {
            Some(StaticBuiltin::ArcNew)
        } else if self.is_mutex_new(name) {
            Some(StaticBuiltin::MutexNew)
        } else {
            spelled_builtin(name)
        }
    }
}

/// The static call that is recognized by its spelling.
pub open spec fn spelled_builtin(name: Seq<char>) -> Option<StaticBuiltin> {
    if name == "Own::new"@ {
        Some(StaticBuiltin::OwnNew)
    } else if name == "Own::from_raw"@ {
        Some(StaticBuiltin::OwnFromRaw)
    } else if name == "Shared::new"@ {
        Some(StaticBuiltin::SharedNew)
    } else if begins_with(name, "Atomic"@) && finishes_with(name, "::new"@) {
        match constructed_scalar(name) {
            Some(scalar) => Some(StaticBuiltin::AtomicNew(scalar)),
            None => None,
        }
    } else if name == "Terminal::stdout"@ {
        Some(StaticBuiltin::TerminalStdout)
    } else if name == "Vec::new"@ {
        Some(StaticBuiltin::VecNew)
    } else if name == "Vec::with_capacity"@ {
        Some(StaticBuiltin::VecWithCapacity)
    } else if name == "Map::new"@ {
        Some(StaticBuiltin::MapNew)
    } else if name == "Map::with_capacity"@ {
        Some(StaticBuiltin::MapWithCapacity)
    } else if name == "File::open"@ {
        Some(StaticBuiltin::FileOpen { create: false })
    } else if name == "File::create"@ {
        Some(StaticBuiltin::FileOpen { create: true })
    } else if name == "String::from_str"@ {
        Some(StaticBuiltin::StringFromStr)
    } else if name == "print"@ || name == "std::print"@ {
        Some(StaticBuiltin::Print { newline: false, to_stderr: false })
    } else if name == "println"@ || name == "std::println"@ {
        Some(StaticBuiltin::Print { newline: true, to_stderr: false })
    } else if name == "eprint"@ || name == "std::eprint"@ {
        Some(StaticBuiltin::Print { newline: false, to_stderr: true })
    } else if name == "eprintln"@ || name == "std::eprintln"@ {
        Some(StaticBuiltin::Print { newline: true, to_stderr: true })
    } else {
        None
    }
}

fn builtin_spelled(name: &str) -> (builtin: Option<StaticBuiltin>)
    ensures
        builtin == spelled_builtin(name@),
{
    if same_text(name, "Own::new") {
        Some(StaticBuiltin::OwnNew)
    } else if same_text(name, "Own::from_raw") {
        Some(StaticBuiltin::OwnFromRaw)
    } else if same_text(name, "Shared::new") {
        Some(StaticBuiltin::SharedNew)
    } else if starts_with(name, "Atomic") && ends_with(name, "::new") {
        match constructor_scalar(name) {
            Some(scalar) => Some(StaticBuiltin::AtomicNew(scalar)),
            None => None,
        }
    } else if same_text(name, "Terminal::stdout") {
        Some(StaticBuiltin::TerminalStdout)
    } else if same_text(name, "Vec::new") {
        Some(StaticBuiltin::VecNew)
    } else if same_text(name, "Vec::with_capacity") {
        Some(StaticBuiltin::VecWithCapacity)
    } else if same_text(name, "Map::new") {
        Some(StaticBuiltin::MapNew)
    } else if same_text(name, "Map::with_capacity") {
        Some(StaticBuiltin::MapWithCapacity)
    } else if same_text(name, "File::open") {
        Some(StaticBuiltin::FileOpen { create: false })
    } else if same_text(name, "File::create") {
        Some(StaticBuiltin::FileOpen { create: true })
    } else if same_text(name, "String::from_str") {
        Some(StaticBuiltin::StringFromStr)
    } else if same_text(name, "print") || same_text(name, "std::print") {
        Some(StaticBuiltin::Print { newline: false, to_stderr: false })
    } else if same_text(name, "println") || same_text(name, "std::println") {
        Some(StaticBuiltin::Print { newline: true, to_stderr: false })
    } else if same_text(name, "eprint") || same_text(name, "std::eprint") {
        Some(StaticBuiltin::Print { newline: false, to_stderr: true })
    } else if same_text(name, "eprintln") || same_text(name, "std::eprintln") {
        Some(StaticBuiltin::Print { newline: true, to_stderr: true })
    } else {
        None
    }
}

/// What is asked of the values that a method needs.
#[derive(Debug)]
pub struct MethodCall {
    pub function: String,
    pub self_kind: SelfKind,
    pub receiver_type: Type,
}

/// The mathematical model of a [`MethodCall`].
pub struct MethodCallView {
    pub function: Seq<char>,
    pub self_kind: SelfKind,
    pub receiver_type: TypeView,
}

impl View for MethodCall {
    type V = MethodCallView;

    open spec fn view(&self) -> MethodCallView {
        MethodCallView {
            function: self.function@,
            self_kind: self.self_kind,
            receiver_type: self.receiver_type@,
        }
    }
}

/// What lowering of a method call does next. What comes after the step is for
/// [`LowerCtx::resume_method`] to say, or for [`LowerCtx::resume_call`] where the
/// method call was written as a call of a field.
#[derive(Debug)]
pub enum MethodStep {
    Done(Option<Rvalue>),
    /// The receiver is to be lowered towards the handle type, and handed to
    /// `lower_thread_method`.
    ThreadHandle { handle_type: Type, detach: bool },
    /// The argument is to be lowered towards the item type, and handed to
    /// `lower_try_send`.
    Item { sender: LocalId, item: Type },
    /// The address of the receiver is wanted by `supply_atomic_reference`.
    AtomicReference,
    /// The arguments are to be lowered and handed to `lower_atomic_method`.
    AtomicValues { atomic: LocalId, scalar: AtomicScalar, method: AtomicMethod },
    /// The first of these compiler-lowered methods is to be tried. The others
    /// follow until one gives a value, and a user method after them if
    /// `then_struct` is set.
    Builtins { tries: Vec<BuiltinMethod>, then_struct: bool },
    /// The receiver of a user method is to be lowered.
    Receiver(MethodCall),
}

/// The mathematical model of a [`MethodStep`].
pub enum MethodStepView {
    Done(Option<RvalueView>),
    ThreadHandle { handle_type: TypeView, detach: bool },
    Item { sender: LocalId, item: TypeView },
    AtomicReference,
    AtomicValues { atomic: LocalId, scalar: AtomicScalar, method: AtomicMethod },
    Builtins { tries: Seq<BuiltinMethod>, then_struct: bool },
    Receiver(MethodCallView),
}

impl View for MethodStep {
    type V = MethodStepView;

    open spec fn view(&self) -> MethodStepView {
        match *self {
            MethodStep::Done(value) => MethodStepView::Done(rvalue_option_view(value)),
            MethodStep::ThreadHandle { handle_type, detach } => MethodStepView::ThreadHandle {
                handle_type: handle_type@,
                detach,
            },
            MethodStep::Item { sender, item } => MethodStepView::Item { sender, item: item@ },
            MethodStep::AtomicReference => MethodStepView::AtomicReference,
            MethodStep::AtomicValues { atomic, scalar, method } => MethodStepView::AtomicValues {
                atomic,
                scalar,
                method,
            },
            MethodStep::Builtins { tries, then_struct } => MethodStepView::Builtins {
                tries: tries@,
                then_struct,
            },
            MethodStep::Receiver(call) => MethodStepView::Receiver(call@),
        }
    }
}

pub open spec fn method_step_view(step: Option<MethodStep>) -> Option<MethodStepView> {
    match step {
        Some(step) => Some(step@),
        None => None,
    }
}

/// The positions of the interfaces that provide a method, from position `i` on.
pub open spec fn providers_from(
    interfaces: Seq<(Seq<char>, NameMap<MethodInfo>)>,
    method: Seq<char>,
    i: int,
) -> Seq<int>
    decreases interfaces.len() - i,
{
    if i < 0 || i >= interfaces.len() {
        Seq::empty()
    } else {
        let rest = providers_from(interfaces, method, i + 1);
        if value_of(interfaces[i].1@, method) is Some {
            seq![i] + rest
        } else {
            rest
        }
    }
}

/// Whether a type is the standard file handle, directly or behind a reference.
pub open spec fn is_file(ty: Option<TypeView>) -> bool {
    ty matches Some(ty) && named_struct(ty) == Some("File"@)
}

/// Whether a type is text, directly or behind a reference.
pub open spec fn is_text(ty: TypeView) -> bool {
    ty is Str || ty is String || (ty matches TypeView::Ref(inner, _) && (*inner is Str
        || *inner is String))
}

/// One method to try.
pub open spec fn only(method: BuiltinMethod, then_struct: bool) -> MethodStepView {
    MethodStepView::Builtins { tries: seq![method], then_struct }
}

/// The methods that are tried for a name, where neither the number of arguments
/// nor the receiver matters.
pub open spec fn builtins_named(method: Seq<char>) -> Option<MethodStepView> {
    if method == "as_str"@ {
        Some(only(BuiltinMethod::StringAsStr, true))
    } else if method == "push"@ {
        Some(only(BuiltinMethod::VecPush, true))
    } else if method == "pop"@ {
        Some(only(BuiltinMethod::VecPop, true))
    } else if method == "add"@ {
        Some(only(BuiltinMethod::MapAdd, false))
    } else if method == "update"@ {
        Some(only(BuiltinMethod::MapUpdate, false))
    } else if method == "del"@ {
        Some(only(BuiltinMethod::MapDel, false))
    } else if method == "get"@ {
        Some(
            MethodStepView::Builtins {
                tries: seq![BuiltinMethod::VecGet, BuiltinMethod::MapGet],
                then_struct: false,
            },
        )
    } else if method == "has"@ {
        Some(only(BuiltinMethod::MapHas, false))
    } else if method == "keys"@ {
        Some(only(BuiltinMethod::MapKeys, false))
    } else if method == "vals"@ {
        Some(only(BuiltinMethod::MapVals, false))
    } else if method == "read_to_string"@ {
        Some(only(BuiltinMethod::FileReadToString, false))
    } else if method == "write_string"@ {
        Some(only(BuiltinMethod::FileWriteString, false))
    } else if method == "concat"@ {
        Some(only(BuiltinMethod::StringConcat, false))
    } else if method == "slice"@ {
        Some(only(BuiltinMethod::StringSlice, false))
    } else if method == "trim"@ {
        Some(only(BuiltinMethod::StringTrim, false))
    } else if method == "split"@ {
        Some(only(BuiltinMethod::StringSplit, false))
    } else if method == "starts_with"@ {
        Some(only(BuiltinMethod::StringStartsWith, false))
    } else if method == "ends_with"@ {
        Some(only(BuiltinMethod::StringEndsWith, false))
    } else {
        None
    }
}

/// The methods that a call through a field tries, where the number of arguments
/// does not matter.
pub open spec fn field_builtin(method: Seq<char>) -> Option<BuiltinMethod> {
    if method == "add"@ {
        Some(BuiltinMethod::MapAdd)
    } else if method == "update"@ {
        Some(BuiltinMethod::MapUpdate)
    } else if method == "del"@ {
        Some(BuiltinMethod::MapDel)
    } else if method == "get"@ {
        Some(BuiltinMethod::MapGet)
    } else if method == "has"@ {
        Some(BuiltinMethod::MapHas)
    } else if method == "keys"@ {
        Some(BuiltinMethod::MapKeys)
    } else if method == "vals"@ {
        Some(BuiltinMethod::MapVals)
    } else {
        None
    }
}

impl LowerState {
    /// Methods of channel endpoints, `Arc` and `Mutex`.
    #[verifier::opaque]
    pub open spec fn owned_cell_method(
        self,
        receiver: Expr,
        method: Seq<char>,
        args: Seq<Expr>,
        span: Span,
    ) -> (LowerState, Option<MethodStepView>) {
        let (sent, endpoint) = self.endpoint_method(receiver, method, args, span);
        match endpoint {
            Some(EndpointStepView::Done(value)) => (sent, Some(MethodStepView::Done(value))),
            Some(EndpointStepView::WantsItem { sender, item }) => (
                sent,
                Some(MethodStepView::Item { sender, item }),
            ),
            None => {
                let (shared, arc) = sent.arc_method(receiver, method, args, span);
                match arc {
                    Some(value) => (shared, Some(MethodStepView::Done(value))),
                    None => {
                        let (locked, mutex) = shared.mutex_method(receiver, method, args, span);
                        match mutex {
                            Some(value) => (locked, Some(MethodStepView::Done(value))),
                            None => (locked, None),
                        }
                    },
                }
            },
        }
    }

    /// The user method behind a name.
    #[verifier::opaque]
    pub open spec fn struct_method(self, receiver: Expr, method: Seq<char>, span: Span) -> (
        LowerState,
        MethodStepView,
    ) {
        let failed = |message: Seq<char>|
            (self.error(message, Some(span)), MethodStepView::Done(None));
        match self.inferred(receiver) {
            None => failed(
                "cannot infer type of method receiver; consider adding type annotation"@,
            ),
            Some(ty) => match named_struct(ty) {
                None => failed("methods can only be called on struct types"@),
                Some(structure) => {
                    let found = |info: MethodInfo|
                        (
                            self,
                            MethodStepView::Receiver(
                                MethodCallView {
                                    function: info.function_name@,
                                    self_kind: info.self_kind,
                                    receiver_type: ty,
                                },
                            ),
                        );
                    match self.inherent_method(structure, method) {
                        Some(info) => found(info),
                        None => {
                            let interfaces = self.interfaces_of(structure);
                            let providers = providers_from(interfaces, method, 0);
                            if providers.len() == 0 {
                                failed(
                                    "no method '"@ + method + "' found on type '"@ + structure
                                        + "'"@,
                                )
                            } else if providers.len() > 1 {
                                failed(
                                    "method '"@ + method
                                        + "' is provided by multiple interfaces on '"@ + structure
                                        + "': '"@ + interfaces[providers[0]].0 + "' and '"@
                                        + interfaces[providers[1]].0 + "'"@,
                                )
                            } else {
                                found(
                                    value_of(interfaces[providers[0]].1@, method)->Some_0,
                                )
                            }
                        },
                    }
                },
            },
        }
    }

    pub open spec fn inherent_method(self, structure: Seq<char>, method: Seq<char>) -> Option<
        MethodInfo,
    > {
        match value_of(self.resolver.inherent_methods@, structure) {
            Some(methods) => value_of(methods@, method),
            None => None,
        }
    }

    pub open spec fn interfaces_of(self, structure: Seq<char>) -> Seq<
        (Seq<char>, NameMap<MethodInfo>),
    > {
        match value_of(self.resolver.interface_impls@, structure) {
            Some(interfaces) => interfaces@,
            None => Seq::empty(),
        }
    }

    /// A method call that no compiler-owned cell answered: builtin methods by
    /// their names first, then user methods.
    #[verifier::opaque]
    pub open spec fn plain_method(
        self,
        receiver: Expr,
        method: Seq<char>,
        args: nat,
        span: Span,
    ) -> (LowerState, MethodStepView) {
        let failed = |message: Seq<char>|
            (self.error(message, Some(span)), MethodStepView::Done(None));
        if method == "len"@ {
            if args != 0 {
                failed(".len() does not take arguments"@)
            } else {
                (
                    self,
                    MethodStepView::Builtins {
                        tries: seq![
                            BuiltinMethod::VecLen,
                            BuiltinMethod::StringLen,
                            BuiltinMethod::ArrayLen,
                        ],
                        then_struct: false,
                    },
                )
            }
        } else if method == "write"@ && is_file(self.inferred(receiver)) {
            (self, only(BuiltinMethod::FileWriteString, false))
        } else if method == "close"@ && is_file(self.inferred(receiver)) {
            (self, only(BuiltinMethod::FileClose, false))
        } else if method == "into_raw"@ {
            if args != 0 {
                failed("into_raw() does not take arguments"@)
            } else {
                (self, only(BuiltinMethod::OwnIntoRaw, false))
            }
        } else if method == "clone"@ {
            if args != 0 {
                failed(".clone() does not take arguments"@)
            } else {
                match self.inferred(receiver) {
                    None => (self, MethodStepView::Done(None)),
                    Some(ty) => if ty is Shared {
                        (self, only(BuiltinMethod::SharedClone, false))
                    } else if is_text(ty) {
                        (self, only(BuiltinMethod::StringClone, false))
                    } else {
                        self.struct_method(receiver, method, span)
                    },
                }
            }
        } else {
            match builtins_named(method) {
                Some(step) => (self, step),
                None => self.struct_method(receiver, method, span),
            }
        }
    }

    /// A method call whose receiver is no thread handle.
    #[verifier::opaque]
    pub open spec fn other_method(
        self,
        receiver: Expr,
        method: Seq<char>,
        args: Seq<Expr>,
        span: Span,
    ) -> (LowerState, MethodStepView) {
        let (tried, step) = self.owned_cell_method(receiver, method, args, span);
        match step {
            Some(step) => (tried, step),
            None => if AtomicMethod::named(method) is Some {
                let (asked, atomic) = tried.beginning_atomic(receiver, method, args.len(), span);
                match atomic {
                    AtomicStep::Refused => asked.plain_method(receiver, method, args.len(), span),
                    AtomicStep::WantsReference => (asked, MethodStepView::AtomicReference),
                    AtomicStep::WantsValues { atomic, scalar, method } => (
                        asked,
                        MethodStepView::AtomicValues { atomic, scalar, method },
                    ),
                }
            } else {
                tried.plain_method(receiver, method, args.len(), span)
            },
        }
    }

    /// A method call.
    pub open spec fn method_call(
        self,
        receiver: Expr,
        method: Seq<char>,
        args: Seq<Expr>,
        span: Span,
    ) -> (LowerState, MethodStepView) {
        match self.thread_receiver(receiver, method, args) {
            Some(handle_type) => (
                self,
                MethodStepView::ThreadHandle { handle_type, detach: method == "detach"@ },
            ),
            None => self.other_method(receiver, method, args, span),
        }
    }
}

impl<'a> LowerCtx<'a> {
    /// The static call that the compiler lowers itself.
    pub fn static_builtin(&self, name: &str) -> (builtin: Option<StaticBuiltin>)
        ensures
            builtin == self@.static_builtin(name@),
    {
        if self.is_canonical_spawn(name) {
            Some(StaticBuiltin::Spawn)
        } else if self.resolver.is_function_symbol(name, "std/thread", "scope") {
            Some(StaticBuiltin::Scope)
        } else if self.is_canonical_channel(name) {
            Some(StaticBuiltin::Channel)
        } else if self.is_canonical_arc_new(name) {
            Some(StaticBuiltin::ArcNew)
        } else if self.is_canonical_mutex_new(name) {
            Some(StaticBuiltin::MutexNew)
        } else {
            builtin_spelled(name)
        }
    }

    fn owned_cell_method(
        &mut self,
        receiver: &Expr,
        method: &str,
        args: &Vec<Expr>,
        span: Span,
    ) -> (step: Option<MethodStep>)
        ensures
            (final(self)@, method_step_view(step)) == old(self)@.owned_cell_method(
                *receiver,
                method@,
                args@,
                span,
            ),
    {
        proof {
            reveal(LowerState::owned_cell_method);
        }
        match self.lower_spsc_method(receiver, method, args, span) {
            Some(EndpointStep::Done(value)) => {
                return Some(MethodStep::Done(value));
            },
            Some(EndpointStep::WantsItem { sender, item }) => {
                return Some(MethodStep::Item { sender, item });
            },
            None => {},
        }
        match self.lower_arc_method(receiver, method, args, span) {
            Some(value) => {
                return Some(MethodStep::Done(value));
            },
            None => {},
        }
        match self.lower_mutex_method(receiver, method, args, span) {
            Some(value) => Some(MethodStep::Done(value)),
            None => None,
        }
    }

    fn fail_method(&mut self, message: &str, span: Span) -> (step: MethodStep)
        ensures
            final(self)@ == old(self)@.error(message@, Some(span)),
            step@ == MethodStepView::Done(None),
    {
        self.error(message, Some(span));
        MethodStep::Done(None)
    }
}

fn providers_of(interfaces: &NameMap<NameMap<MethodInfo>>, method: &str) -> (providers: Vec<usize>)
    ensures
        providers@.len() == providers_from(interfaces@, method@, 0).len(),
        forall|i: int|
            0 <= i < providers@.len() ==> (#[trigger] providers@[i]) < interfaces@.len()
                && providers@[i] == providers_from(interfaces@, method@, 0)[i] && value_of(
                interfaces@[providers@[i] as int].1@,
                method@,
            ) is Some,
{
    let ghost whole = providers_from(interfaces@, method@, 0);
    let mut providers: Vec<usize> = Vec::new();
    let ghost mut seen: Seq<int> = Seq::empty();
    let mut i: usize = 0;
    assert(whole =~= seen + whole);
    while i < interfaces.len()
        invariant
            i <= interfaces@.len(),
            whole == seen + providers_from(interfaces@, method@, i as int),
            seen.len() == providers@.len(),
            forall|j: int|
                0 <= j < providers@.len() ==> (#[trigger] providers@[j]) < interfaces@.len()
                    && providers@[j] == seen[j] && value_of(
                    interfaces@[providers@[j] as int].1@,
                    method@,
                ) is Some,
        decreases interfaces@.len() - i,
    {
        let ghost rest = providers_from(interfaces@, method@, i + 1);
        if interfaces.value_at(i).get(method).is_some() {
            assert(seen + providers_from(interfaces@, method@, i as int) =~= seen.push(i as int)
                + rest);
            providers.push(i);
            proof {
                seen = seen.push(i as int);
            }
        }
        i += 1;
    }
    assert(whole =~= seen);
    providers
}

fn step_named(method: &str) -> (step: Option<MethodStep>)
    ensures
        method_step_view(step) == builtins_named(method@),
{
    let (first, then_struct) = if same_text(method, "as_str") {
        (BuiltinMethod::StringAsStr, true)
    } else if same_text(method, "push") {
        (BuiltinMethod::VecPush, true)
    } else if same_text(method, "pop") {
        (BuiltinMethod::VecPop, true)
    } else if same_text(method, "add") {
        (BuiltinMethod::MapAdd, false)
    } else if same_text(method, "update") {
        (BuiltinMethod::MapUpdate, false)
    } else if same_text(method, "del") {
        (BuiltinMethod::MapDel, false)
    } else if same_text(method, "get") {
        let tries: Vec<BuiltinMethod> = vec![BuiltinMethod::VecGet, BuiltinMethod::MapGet];
        return Some(MethodStep::Builtins { tries, then_struct: false });
    } else if same_text(method, "has") {
        (BuiltinMethod::MapHas, false)
    } else if same_text(method, "keys") {
        (BuiltinMethod::MapKeys, false)
    } else if same_text(method, "vals") {
        (BuiltinMethod::MapVals, false)
    } else if same_text(method, "read_to_string") {
        (BuiltinMethod::FileReadToString, false)
    } else if same_text(method, "write_string") {
        (BuiltinMethod::FileWriteString, false)
    } else if same_text(method, "concat") {
        (BuiltinMethod::StringConcat, false)
    } else if same_text(method, "slice") {
        (BuiltinMethod::StringSlice, false)
    } else if same_text(method, "trim") {
        (BuiltinMethod::StringTrim, false)
    } else if same_text(method, "split") {
        (BuiltinMethod::StringSplit, false)
    } else if same_text(method, "starts_with") {
        (BuiltinMethod::StringStartsWith, false)
    } else if same_text(method, "ends_with") {
        (BuiltinMethod::StringEndsWith, false)
    } else {
        return None;
    };
    Some(one_builtin(first, then_struct))
}

fn one_builtin(method: BuiltinMethod, then_struct: bool) -> (step: MethodStep)
    ensures
        step@ == only(method, then_struct),
{
    let tries: Vec<BuiltinMethod> = vec![method];
    assert(tries@ =~= seq![method]);
    MethodStep::Builtins { tries, then_struct }
}

fn is_file_type(ty: &Option<Type>) -> (file: bool)
    ensures
        file == is_file(type_option_view(*ty)),
{
    match ty {
        Some(ty) => match struct_named(ty) {
            Some(name) => same_text(name.as_str(), "File"),
            None => false,
        },
        None => false,
    }
}

fn is_text_type(ty: &Type) -> (text: bool)
    ensures
        text == is_text(ty@),
{
    match ty {
        Type::Str | Type::String => true,
        Type::Ref(inner, _) => {
            let target: &Type = inner;
            assert(*(ty@->Ref_0) == target@);
            match target {
                Type::Str | Type::String => true,
                _ => false,
            }
        },
        _ => false,
    }
}

impl<'a> LowerCtx<'a> {
    /// The user method behind a name: a method of the struct itself, or the only
    /// one that an interface provides.
    pub fn lower_struct_method(&mut self, receiver: &Expr, method: &str, span: Span) -> (step:
        MethodStep)
        ensures
            (final(self)@, step@) == old(self)@.struct_method(*receiver, method@, span),
    {
        proof {
            reveal(LowerState::struct_method);
        }
        let receiver_type = match self.infer_expr_type(receiver) {
            Some(ty) => ty,
            None => {
                return self.fail_method(
                    "cannot infer type of method receiver; consider adding type annotation",
                    span,
                );
            },
        };
        let structure = match struct_named(&receiver_type) {
            Some(name) => name.clone(),
            None => {
                return self.fail_method("methods can only be called on struct types", span);
            },
        };
        let resolver = self.resolver;
        match resolver.get_inherent_method(structure.as_str(), method) {
            Some(info) => {
                return MethodStep::Receiver(
                    MethodCall {
                        function: info.function_name.clone(),
                        self_kind: info.self_kind,
                        receiver_type,
                    },
                );
            },
            None => {},
        }
        match resolver.interface_impls.get(structure.as_str()) {
            Some(interfaces) => {
                let providers = providers_of(interfaces, method);
                if providers.len() > 1 {
                    let head = concat5(
                        "method '",
                        method,
                        "' is provided by multiple interfaces on '",
                        structure.as_str(),
                        "': '",
                    );
                    let message = concat5(
                        head.as_str(),
                        interfaces.name_at(providers[0]).as_str(),
                        "' and '",
                        interfaces.name_at(providers[1]).as_str(),
                        "'",
                    );
                    return self.fail_method(message.as_str(), span);
                }
                if providers.len() == 1 {
                    match interfaces.value_at(providers[0]).get(method) {
                        Some(info) => {
                            return MethodStep::Receiver(
                                MethodCall {
                                    function: info.function_name.clone(),
                                    self_kind: info.self_kind,
                                    receiver_type,
                                },
                            );
                        },
                        None => {},
                    }
                }
            },
            None => {},
        }
        let message = concat5(
            "no method '",
            method,
            "' found on type '",
            structure.as_str(),
            "'",
        );
        self.fail_method(message.as_str(), span)
    }

    /// A method call that no compiler-owned cell answered.
    pub fn lower_plain_method(
        &mut self,
        receiver: &Expr,
        method: &str,
        args: &Vec<Expr>,
        span: Span,
    ) -> (step: MethodStep)
        ensures
            (final(self)@, step@) == old(self)@.plain_method(
                *receiver,
                method@,
                args@.len(),
                span,
            ),
    {
        proof {
            reveal(LowerState::plain_method);
        }
        if same_text(method, "len") {
            if args.len() != 0 {
                return self.fail_method(".len() does not take arguments", span);
            }
            let tries: Vec<BuiltinMethod> = vec![
                BuiltinMethod::VecLen,
                BuiltinMethod::StringLen,
                BuiltinMethod::ArrayLen,
            ];
            return MethodStep::Builtins { tries, then_struct: false };
        }
        let receiver_type = self.infer_expr_type(receiver);
        if same_text(method, "write") && is_file_type(&receiver_type) {
            return one_builtin(BuiltinMethod::FileWriteString, false);
        }
        if same_text(method, "close") && is_file_type(&receiver_type) {
            return one_builtin(BuiltinMethod::FileClose, false);
        }
        if same_text(method, "into_raw") {
            if args.len() != 0 {
                return self.fail_method("into_raw() does not take arguments", span);
            }
            return one_builtin(BuiltinMethod::OwnIntoRaw, false);
        }
        if same_text(method, "clone") {
            if args.len() != 0 {
                return self.fail_method(".clone() does not take arguments", span);
            }
            let ty = match &receiver_type {
                Some(ty) => ty,
                None => {
                    return MethodStep::Done(None);
                },
            };
            if ty.is_shared() {
                return one_builtin(BuiltinMethod::SharedClone, false);
            }
            if is_text_type(ty) {
                return one_builtin(BuiltinMethod::StringClone, false);
            }
            return self.lower_struct_method(receiver, method, span);
        }
        match step_named(method) {
            Some(step) => step,
            None => self.lower_struct_method(receiver, method, span),
        }
    }

    /// A method call whose receiver is no thread handle, or could not be lowered
    /// as one.
    pub fn lower_other_method(
        &mut self,
        receiver: &Expr,
        method: &str,
        args: &Vec<Expr>,
        span: Span,
    ) -> (step: MethodStep)
        ensures
            (final(self)@, step@) == old(self)@.other_method(*receiver, method@, args@, span),
    {
        proof {
            reveal(LowerState::other_method);
        }
        match self.owned_cell_method(receiver, method, args, span) {
            Some(step) => {
                return step;
            },
            None => {},
        }
        if AtomicMethod::from_name(method).is_some() {
            match self.begin_atomic_method(receiver, method, args, span) {
                AtomicStep::Refused => {},
                AtomicStep::WantsReference => {
                    return MethodStep::AtomicReference;
                },
                AtomicStep::WantsValues { atomic, scalar, method } => {
                    return MethodStep::AtomicValues { atomic, scalar, method };
                },
            }
        }
        self.lower_plain_method(receiver, method, args, span)
    }

    /// Starts a method call.
    pub fn lower_method_call(
        &mut self,
        receiver: &Expr,
        method: &Ident,
        args: &Vec<Expr>,
        span: Span,
    ) -> (step: MethodStep)
        ensures
            (final(self)@, step@) == old(self)@.method_call(*receiver, method.0@, args@, span),
    {
        let name = method.0.as_str();
        match self.begin_thread_method(receiver, name, args) {
            Some(handle_type) => MethodStep::ThreadHandle {
                handle_type,
                detach: same_text(name, "detach"),
            },
            None => self.lower_other_method(receiver, name, args, span),
        }
    }
}

/// The value that a step gave, if it applied and gave one.
pub open spec fn settled(outcome: Option<Option<RvalueView>>) -> Option<RvalueView> {
    match outcome {
        Some(value) => value,
        None => None,
    }
}

impl LowerState {
    /// A method call after one of its steps. A receiver that could not be lowered
    /// as a thread handle, and an atomic call that is refused, leave the call to
    /// what it can be otherwise; builtin methods are tried one after the other.
    pub open spec fn resuming_method(
        self,
        step: MethodStepView,
        receiver: Expr,
        method: Seq<char>,
        args: Seq<Expr>,
        span: Span,
        outcome: Option<Option<RvalueView>>,
    ) -> (LowerState, MethodStepView) {
        let done = (self, MethodStepView::Done(settled(outcome)));
        match step {
            MethodStepView::Done(value) => (self, MethodStepView::Done(value)),
            MethodStepView::ThreadHandle { .. } => if outcome is Some {
                done
            } else {
                self.other_method(receiver, method, args, span)
            },
            MethodStepView::AtomicReference | MethodStepView::AtomicValues { .. } => {
                if settled(outcome) is Some {
                    done
                } else {
                    self.plain_method(receiver, method, args.len(), span)
                }
            },
            MethodStepView::Builtins { tries, then_struct } => if settled(outcome) is Some {
                done
            } else if tries.len() > 1 {
                (self, MethodStepView::Builtins { tries: tries.skip(1), then_struct })
            } else if then_struct {
                self.struct_method(receiver, method, span)
            } else {
                done
            },
            MethodStepView::Item { .. } | MethodStepView::Receiver(_) => done,
        }
    }
}

impl<'a> LowerCtx<'a> {
    /// Goes on with a method call after one of its steps. The outcome is what
    /// lowering the step gave, and `None` where the step did not apply.
    pub fn resume_method(
        &mut self,
        step: MethodStep,
        receiver: &Expr,
        method: &str,
        args: &Vec<Expr>,
        span: Span,
        outcome: Option<Option<Rvalue>>,
    ) -> (next: MethodStep)
        ensures
            (final(self)@, next@) == old(self)@.resuming_method(
                step@,
                *receiver,
                method@,
                args@,
                span,
                method_result_view(outcome),
            ),
    {
        let applied = outcome.is_some();
        let value = match outcome {
            Some(value) => value,
            None => None,
        };
        match step {
            MethodStep::Done(value) => MethodStep::Done(value),
            MethodStep::ThreadHandle { .. } => {
                if applied {
                    MethodStep::Done(value)
                } else {
                    self.lower_other_method(receiver, method, args, span)
                }
            },
            MethodStep::AtomicReference | MethodStep::AtomicValues { .. } => {
                if value.is_some() {
                    MethodStep::Done(value)
                } else {
                    self.lower_plain_method(receiver, method, args, span)
                }
            },
            MethodStep::Builtins { tries, then_struct } => {
                if value.is_some() {
                    MethodStep::Done(value)
                } else if tries.len() > 1 {
                    let ghost all = tries@;
                    let mut rest = tries;
                    let _ = rest.remove(0);
                    assert(rest@ =~= all.skip(1));
                    MethodStep::Builtins { tries: rest, then_struct }
                } else if then_struct {
                    self.lower_struct_method(receiver, method, span)
                } else {
                    MethodStep::Done(value)
                }
            },
            MethodStep::Item { .. } | MethodStep::Receiver(_) => MethodStep::Done(value),
        }
    }
}

/// How the receiver of a user method reaches it.
pub open spec fn wanted_reference(call: MethodCallView) -> Option<Mutability> {
    if call.receiver_type is Ref {
        None
    } else {
        match call.self_kind {
            SelfKind::ByValue => None,
            SelfKind::Ref => Some(Mutability::Immutable),
            SelfKind::MutRef => Some(Mutability::Mutable),
        }
    }
}

impl MethodCall {
    /// The reference to the receiver that the method takes, where the receiver
    /// is not lowered as a value.
    pub fn wants_reference(&self) -> (mutability: Option<Mutability>)
        ensures
            mutability == wanted_reference(self@),
    {
        match &self.receiver_type {
            Type::Ref(_, _) => None,
            _ => match self.self_kind {
                SelfKind::ByValue => None,
                SelfKind::Ref => Some(Mutability::Immutable),
                SelfKind::MutRef => Some(Mutability::Mutable),
            },
        }
    }
}

/// The types of all parameters but the receiver.
pub open spec fn rest_params(params: Seq<Option<TypeView>>) -> Seq<Option<TypeView>> {
    if params.len() == 0 {
        params
    } else {
        params.skip(1)
    }
}

pub open spec fn receiver_param(params: Seq<Option<TypeView>>) -> Option<TypeView> {
    if params.len() == 0 {
        None
    } else {
        params[0]
    }
}

impl LowerState {
    /// The parameter types of a function, where its signature is known.
    pub open spec fn method_params(self, function: Seq<char>) -> Seq<Option<TypeView>> {
        match value_of(self.fn_sigs, function) {
            Some(sig) => params_view(sig.params@),
            None => Seq::empty(),
        }
    }

    /// The result type of a function, where its signature is known.
    pub open spec fn method_result(self, function: Seq<char>) -> Option<TypeView> {
        match value_of(self.fn_sigs, function) {
            Some(sig) => Some(or_unit(type_option_view(sig.ret))),
            None => None,
        }
    }

    /// The call of a user method once its receiver is an operand.
    pub open spec fn calling_method(
        self,
        call: MethodCallView,
        receiver: LoweredView,
        temporary: bool,
        args: nat,
        span: Span,
    ) -> (LowerState, CallStepView) {
        let params = self.method_params(call.function);
        let (handed, taken) = self.handing_over(
            receiver.value,
            span,
            crate::lower::call::takes_reference(receiver_param(params)),
        );
        if !taken {
            (handed, CallStepView::Done(None))
        } else {
            handed.advancing(
                FrameView {
                    target: TargetView::Method {
                        function: call.function,
                        result: self.method_result(call.function),
                    },
                    callee_name: call.function,
                    params: rest_params(params),
                    arity: args as int,
                    supplied: 0,
                    values: seq![receiver],
                    temporaries: match receiver.value {
                        MirValue::Local(local) => if temporary {
                            seq![local]
                        } else {
                            Seq::empty()
                        },
                        _ => Seq::empty(),
                    },
                    exclusive: Set::empty(),
                    span,
                    expected_ret: None,
                },
            )
        }
    }

    /// The call of a user method whose receiver was lowered as a value.
    pub open spec fn supplying_receiver(
        self,
        call: MethodCallView,
        receiver: Option<LoweredView>,
        args: nat,
        span: Span,
    ) -> (LowerState, CallStepView) {
        match receiver {
            Some(receiver) => self.calling_method(call, receiver, false, args, span),
            None => (self, CallStepView::Done(None)),
        }
    }

    /// The call of a user method that borrows its receiver for the call.
    pub open spec fn supplying_reference(
        self,
        call: MethodCallView,
        mutability: Mutability,
        reference: Option<RvalueView>,
        args: nat,
        span: Span,
    ) -> (LowerState, CallStepView) {
        match reference {
            Some(reference) => {
                let ty = TypeView::Ref(Box::new(call.receiver_type), mutability);
                let tmp = LocalId(self.next_local);
                self.with_typed_local(ty).assigned(tmp, reference).calling_method(
                    call,
                    LoweredView { value: MirValue::Local(tmp), ty: Some(ty) },
                    true,
                    args,
                    span,
                )
            },
            None => (self, CallStepView::Done(None)),
        }
    }
}

fn rest_of(params: &Vec<Option<Type>>) -> (rest: Vec<Option<Type>>)
    ensures
        params_view(rest@) == rest_params(params_view(params@)),
{
    let mut rest: Vec<Option<Type>> = Vec::new();
    if params.len() == 0 {
        assert(params_view(rest@) =~= params_view(params@));
        return rest;
    }
    let mut i: usize = 1;
    while i < params.len()
        invariant
            1 <= i <= params.len(),
            rest.len() == i - 1,
            forall|j: int|
                0 <= j < rest.len() ==> type_option_view(#[trigger] rest@[j]) == type_option_view(
                    params@[j + 1],
                ),
        decreases params.len() - i,
    {
        let param = match &params[i] {
            Some(ty) => Some(ty.clone()),
            None => None,
        };
        rest.push(param);
        i += 1;
    }
    proof {
        let whole = params_view(params@);
        let tail = rest_params(whole);
        assert(params_view(rest@).len() == tail.len());
        assert forall|j: int| 0 <= j < tail.len() implies params_view(rest@)[j] == tail[j] by {
            assert(type_option_view(rest@[j]) == type_option_view(params@[j + 1]));
            assert(tail[j] == whole[j + 1]);
        }
        assert(params_view(rest@) =~= tail);
    }
    rest
}

impl<'a> LowerCtx<'a> {
    fn begin_method(
        &mut self,
        call: MethodCall,
        receiver: LoweredValue,
        temporary: bool,
        args: &Vec<Expr>,
        span: Span,
    ) -> (step: CallStep)
        ensures
            (final(self)@, step@) == old(self)@.calling_method(
                call@,
                receiver@,
                temporary,
                args@.len(),
                span,
            ),
    {
        let ghost before = self@;
        let ghost view = receiver@;
        let sigs = self.fn_sigs;
        let params: Vec<Option<Type>>;
        let result: Option<Type>;
        let handed: bool;
        match sigs.get(call.function.as_str()) {
            Some(sig) => {
                let wanted: Option<&Type> = if sig.params.len() > 0 {
                    match &sig.params[0] {
                        Some(ty) => Some(ty),
                        None => None,
                    }
                } else {
                    None
                };
                assert(type_ref_view(wanted) == receiver_param(params_view(sig.params@)));
                handed = self.consume_call_local(&receiver.value, span, wanted);
                params = rest_of(&sig.params);
                result = Some(
                    match &sig.ret {
                        Some(ty) => ty.clone(),
                        None => Type::Void,
                    },
                );
            },
            None => {
                handed = self.consume_call_local(&receiver.value, span, None);
                params = Vec::new();
                assert(params_view(params@) =~= Seq::empty());
                result = None;
            },
        }
        if !handed {
            return CallStep::Done(None);
        }
        let mut temporaries: Vec<LocalId> = Vec::new();
        match receiver.value {
            MirValue::Local(local) => {
                if temporary {
                    temporaries.push(local);
                }
            },
            _ => {},
        }
        let values: Vec<LoweredValue> = vec![receiver];
        let frame = CallFrame {
            target: CallTarget::Method { function: call.function.clone(), result },
            callee_name: call.function,
            params,
            arity: args.len(),
            supplied: 0,
            values,
            temporaries,
            exclusive: HashSet::new(),
            span,
            expected_ret: None,
        };
        proof {
            assert(frame@.values =~= seq![view]);
            assert(frame@.temporaries =~= (match view.value {
                MirValue::Local(local) => if temporary {
                    seq![local]
                } else {
                    Seq::empty()
                },
                _ => Seq::empty(),
            }));
        }
        self.advance_call(frame)
    }

    /// Goes on with a user method whose receiver was lowered as a value.
    pub fn supply_receiver(
        &mut self,
        call: MethodCall,
        receiver: Option<LoweredValue>,
        args: &Vec<Expr>,
        span: Span,
    ) -> (step: CallStep)
        ensures
            (final(self)@, step@) == old(self)@.supplying_receiver(
                call@,
                lowered_option_view(receiver),
                args@.len(),
                span,
            ),
    {
        match receiver {
            Some(receiver) => self.begin_method(call, receiver, false, args, span),
            None => CallStep::Done(None),
        }
    }

    /// Goes on with a user method that borrows its receiver for the call.
    pub fn supply_receiver_reference(
        &mut self,
        call: MethodCall,
        mutability: Mutability,
        reference: Option<Rvalue>,
        args: &Vec<Expr>,
        span: Span,
    ) -> (step: CallStep)
        ensures
            (final(self)@, step@) == old(self)@.supplying_reference(
                call@,
                mutability,
                rvalue_option_view(reference),
                args@.len(),
                span,
            ),
    {
        match reference {
            Some(reference) => {
                let ty = Type::Ref(Box::new(call.receiver_type.clone()), mutability);
                let tmp = self.typed_local(ty.clone());
                self.assign(tmp, reference);
                let receiver = LoweredValue { value: MirValue::Local(tmp), ty: Some(ty) };
                self.begin_method(call, receiver, true, args, span)
            },
            None => CallStep::Done(None),
        }
    }
}

/// Where a call goes. What comes after a static call or a method is for
/// [`LowerCtx::resume_call`] to say.
#[derive(Debug)]
pub enum CallRoute {
    /// A call of a function or of a callable value.
    Step(CallStep),
    /// A static call that the compiler lowers itself.
    Static(StaticBuiltin),
    /// A method call written as a call of a field.
    Method(MethodStep),
}

/// The mathematical model of a [`CallRoute`].
pub enum CallRouteView {
    Step(CallStepView),
    Static(StaticBuiltin),
    Method(MethodStepView),
}

impl View for CallRoute {
    type V = CallRouteView;

    open spec fn view(&self) -> CallRouteView {
        match *self {
            CallRoute::Step(step) => CallRouteView::Step(step@),
            CallRoute::Static(builtin) => CallRouteView::Static(builtin),
            CallRoute::Method(step) => CallRouteView::Method(step@),
        }
    }
}

impl LowerState {
    /// A method call written as a call of a field whose base is no thread handle.
    pub open spec fn other_field_call(
        self,
        base: Expr,
        field: Seq<char>,
        args: Seq<Expr>,
        span: Span,
    ) -> (LowerState, CallRouteView) {
        let (tried, step) = self.owned_cell_method(base, field, args, span);
        let failed = |message: Seq<char>|
            (
                tried.error(message, Some(span)),
                CallRouteView::Method(MethodStepView::Done(None)),
            );
        match step {
            Some(step) => (tried, CallRouteView::Method(step)),
            None => if AtomicMethod::named(field) is Some {
                let (asked, atomic) = tried.beginning_atomic(base, field, args.len(), span);
                (
                    asked,
                    CallRouteView::Method(
                        match atomic {
                            AtomicStep::Refused => MethodStepView::Done(None),
                            AtomicStep::WantsReference => MethodStepView::AtomicReference,
                            AtomicStep::WantsValues { atomic, scalar, method } => {
                                MethodStepView::AtomicValues { atomic, scalar, method }
                            },
                        },
                    ),
                )
            } else if field == "len"@ {
                if args.len() != 0 {
                    failed(".len() does not take arguments"@)
                } else {
                    (tried, CallRouteView::Method(only(BuiltinMethod::ArrayLen, false)))
                }
            } else if field == "into_raw"@ {
                if args.len() != 0 {
                    failed("into_raw() does not take arguments"@)
                } else {
                    (tried, CallRouteView::Method(only(BuiltinMethod::OwnIntoRaw, false)))
                }
            } else {
                match field_builtin(field) {
                    Some(method) => (tried, CallRouteView::Method(only(method, false))),
                    None => (
                        tried.error(
                            "call target must be a function or callable local"@,
                            Some(span),
                        ),
                        CallRouteView::Step(CallStepView::Done(None)),
                    ),
                }
            },
        }
    }

    /// A call.
    pub open spec fn call(
        self,
        callee: Expr,
        args: Seq<Expr>,
        span: Span,
        expected: Option<TypeView>,
    ) -> (LowerState, CallRouteView) {
        let named = self.beginning_named(callee, args.len(), span, expected);
        match callee {
            Expr::FieldAccess { base, field, .. } => match self.thread_receiver(
                *base,
                field.0@,
                args,
            ) {
                Some(handle_type) => (
                    self,
                    CallRouteView::Method(
                        MethodStepView::ThreadHandle {
                            handle_type,
                            detach: field.0@ == "detach"@,
                        },
                    ),
                ),
                None => self.other_field_call(*base, field.0@, args, span),
            },
            Expr::Ident(name, _) => match self.static_builtin(name.0@) {
                Some(builtin) => (self, CallRouteView::Static(builtin)),
                None => (named.0, CallRouteView::Step(named.1)),
            },
            _ => (named.0, CallRouteView::Step(named.1)),
        }
    }
}

fn builtin_of_field(method: &str) -> (builtin: Option<BuiltinMethod>)
    ensures
        builtin == field_builtin(method@),
{
    if same_text(method, "add") {
        Some(BuiltinMethod::MapAdd)
    } else if same_text(method, "update") {
        Some(BuiltinMethod::MapUpdate)
    } else if same_text(method, "del") {
        Some(BuiltinMethod::MapDel)
    } else if same_text(method, "get") {
        Some(BuiltinMethod::MapGet)
    } else if same_text(method, "has") {
        Some(BuiltinMethod::MapHas)
    } else if same_text(method, "keys") {
        Some(BuiltinMethod::MapKeys)
    } else if same_text(method, "vals") {
        Some(BuiltinMethod::MapVals)
    } else {
        None
    }
}

impl<'a> LowerCtx<'a> {
    /// A method call written as a call of a field whose base is no thread handle,
    /// or could not be lowered as one.
    pub fn lower_other_field_call(
        &mut self,
        base: &Expr,
        field: &str,
        args: &Vec<Expr>,
        span: Span,
    ) -> (route: CallRoute)
        ensures
            (final(self)@, route@) == old(self)@.other_field_call(*base, field@, args@, span),
    {
        match self.owned_cell_method(base, field, args, span) {
            Some(step) => {
                return CallRoute::Method(step);
            },
            None => {},
        }
        if AtomicMethod::from_name(field).is_some() {
            let step = match self.begin_atomic_method(base, field, args, span) {
                AtomicStep::Refused => MethodStep::Done(None),
                AtomicStep::WantsReference => MethodStep::AtomicReference,
                AtomicStep::WantsValues { atomic, scalar, method } => MethodStep::AtomicValues {
                    atomic,
                    scalar,
                    method,
                },
            };
            return CallRoute::Method(step);
        }
        if same_text(field, "len") {
            if args.len() != 0 {
                return CallRoute::Method(
                    self.fail_method(".len() does not take arguments", span),
                );
            }
            return CallRoute::Method(one_builtin(BuiltinMethod::ArrayLen, false));
        }
        if same_text(field, "into_raw") {
            if args.len() != 0 {
                return CallRoute::Method(
                    self.fail_method("into_raw() does not take arguments", span),
                );
            }
            return CallRoute::Method(one_builtin(BuiltinMethod::OwnIntoRaw, false));
        }
        match builtin_of_field(field) {
            Some(method) => CallRoute::Method(one_builtin(method, false)),
            None => {
                self.error("call target must be a function or callable local", Some(span));
                CallRoute::Step(CallStep::Done(None))
            },
        }
    }

    /// Starts a call.
    pub fn lower_call(
        &mut self,
        callee: &Expr,
        args: &Vec<Expr>,
        span: Span,
        expected_ret: Option<&Type>,
    ) -> (route: CallRoute)
        ensures
            (final(self)@, route@) == old(self)@.call(
                *callee,
                args@,
                span,
                type_ref_view(expected_ret),
            ),
    {
        match callee {
            Expr::FieldAccess { base, field, .. } => {
                let name = field.0.as_str();
                match self.begin_thread_method(base, name, args) {
                    Some(handle_type) => CallRoute::Method(
                        MethodStep::ThreadHandle {
                            handle_type,
                            detach: same_text(name, "detach"),
                        },
                    ),
                    None => self.lower_other_field_call(base, name, args, span),
                }
            },
            Expr::Ident(name, _) => match self.static_builtin(name.0.as_str()) {
                Some(builtin) => CallRoute::Static(builtin),
                None => CallRoute::Step(self.begin_named_call(callee, args, span, expected_ret)),
            },
            _ => CallRoute::Step(self.begin_named_call(callee, args, span, expected_ret)),
        }
    }
}

impl LowerState {
    /// A call after what its route asked for. A static call that gave nothing is
    /// the call of what the name denotes. A method call that was written as a call
    /// of a field ends with its step, unless the base could not be lowered as a
    /// thread handle.
    pub open spec fn resuming_call(
        self,
        route: CallRouteView,
        callee: Expr,
        args: Seq<Expr>,
        span: Span,
        expected: Option<TypeView>,
        outcome: Option<Option<RvalueView>>,
    ) -> (LowerState, CallRouteView) {
        let done = (self, CallRouteView::Step(CallStepView::Done(settled(outcome))));
        match route {
            CallRouteView::Step(step) => (self, CallRouteView::Step(step)),
            CallRouteView::Static(_) => if settled(outcome) is Some {
                done
            } else {
                let named = self.beginning_named(callee, args.len(), span, expected);
                (named.0, CallRouteView::Step(named.1))
            },
            CallRouteView::Method(MethodStepView::Done(value)) => (
                self,
                CallRouteView::Step(CallStepView::Done(value)),
            ),
            CallRouteView::Method(MethodStepView::ThreadHandle { .. }) => match callee {
                Expr::FieldAccess { base, field, .. } => if outcome is None {
                    self.other_field_call(*base, field.0@, args, span)
                } else {
                    done
                },
                _ => done,
            },
            CallRouteView::Method(_) => done,
        }
    }
}

impl<'a> LowerCtx<'a> {
    /// Goes on with a call after what its route asked for. The outcome is what
    /// that gave, and `None` where it did not apply.
    pub fn resume_call(
        &mut self,
        route: CallRoute,
        callee: &Expr,
        args: &Vec<Expr>,
        span: Span,
        expected_ret: Option<&Type>,
        outcome: Option<Option<Rvalue>>,
    ) -> (next: CallRoute)
        ensures
            (final(self)@, next@) == old(self)@.resuming_call(
                route@,
                *callee,
                args@,
                span,
                type_ref_view(expected_ret),
                method_result_view(outcome),
            ),
    {
        let applied = outcome.is_some();
        let value = match outcome {
            Some(value) => value,
            None => None,
        };
        match route {
            CallRoute::Step(step) => CallRoute::Step(step),
            CallRoute::Static(_) => {
                if value.is_some() {
                    CallRoute::Step(CallStep::Done(value))
                } else {
                    CallRoute::Step(self.begin_named_call(callee, args, span, expected_ret))
                }
            },
            CallRoute::Method(MethodStep::Done(value)) => CallRoute::Step(CallStep::Done(value)),
            CallRoute::Method(MethodStep::ThreadHandle { .. }) => match callee {
                Expr::FieldAccess { base, field, .. } => {
                    if applied {
                        CallRoute::Step(CallStep::Done(value))
                    } else {
                        self.lower_other_field_call(base, field.0.as_str(), args, span)
                    }
                },
                _ => CallRoute::Step(CallStep::Done(value)),
            },
            CallRoute::Method(_) => CallRoute::Step(CallStep::Done(value)),
        }
    }
}

} // verus!
