//! Bounded channels with one sender and one receiver.

use vstd::prelude::*;

use crate::ast::Expr;
use crate::diag::Span;
use crate::lower::context::LowerCtx;
use crate::lower::kinds::{contains_borrow, holds_borrow, spelled, type_label};
use crate::lower::mutex::generic_type;
use crate::lower::state::{LocalState, LowerState};
use crate::lower::values::{
    lowered_option_view, placeholder, rvalue_option_view, LoweredValue, LoweredView, Step, StepView,
};
use crate::mir::{field_values_view, BlockId, LocalId, MirValue, Rvalue, RvalueView};
use crate::table::value_of;
use crate::text::{concat3, concat5, same_text};
use crate::types::{
    canonical_application, canonical_argument, same_type, type_option_view, type_ref_view,
    types_view, Mutability, Type, TypeView, SPSC_RECEIVER_TYPE_CONSTRUCTOR,
    SPSC_SENDER_TYPE_CONSTRUCTOR,
};

verus! {

/// The enum that a send attempt gives: sent, full or disconnected.
pub const SEND_RESULT: &'static str = "TrySendResult";

/// The enum that a receive attempt gives: a value, empty or disconnected.
pub const RECV_RESULT: &'static str = "TryRecvResult";

/// The item type that the expected type of a channel fixes: a sender, or a pair
/// of a sender and a receiver of the same items.
pub open spec fn channel_item(expected: Option<TypeView>) -> Option<TypeView> {
    match expected {
        Some(ty) => match canonical_argument(ty, SPSC_SENDER_TYPE_CONSTRUCTOR@) {
            Some(item) => Some(item),
            None => match ty {
                TypeView::Tuple(endpoints) => if endpoints.len() == 2 {
                    match (
                        canonical_argument(endpoints[0], SPSC_SENDER_TYPE_CONSTRUCTOR@),
                        canonical_argument(endpoints[1], SPSC_RECEIVER_TYPE_CONSTRUCTOR@),
                    ) {
                        (Some(sent), Some(received)) => if sent == received {
                            Some(sent)
                        } else {
                            None
                        },
                        _ => None,
                    }
                } else {
                    None
                },
                _ => None,
            },
        },
        None => None,
    }
}

pub open spec fn is_unit(ty: TypeView) -> bool {
    ty is Void || (ty matches TypeView::Tuple(elements) && elements.len() == 0)
}

/// Why a channel cannot carry items of a type.
pub open spec fn item_problem(item: TypeView) -> Option<Seq<char>> {
    if holds_borrow(item) {
        Some(
            "SPSC channels cannot carry borrowed references or borrowed callables; move owned data into the channel"@,
        )
    } else if is_unit(item) {
        Some("SPSC channels require an addressable non-unit item type"@)
    } else {
        None
    }
}

pub fn is_unit_type(ty: &Type) -> (unit: bool)
    ensures
        unit == is_unit(ty@),
{
    match ty {
        Type::Void => true,
        Type::Tuple(elements) => {
            assert(types_view(elements@).len() == elements@.len());
            elements.len() == 0
        },
        _ => false,
    }
}

fn channel_elem_from_expected(expected: Option<&Type>) -> (item: Option<Type>)
    ensures
        type_option_view(item) == channel_item(type_ref_view(expected)),
{
    let ty = match expected {
        Some(ty) => ty,
        None => {
            return None;
        },
    };
    match ty.spsc_sender_inner_type() {
        Some(item) => {
            return Some(item.clone());
        },
        None => {},
    }
    match ty {
        Type::Tuple(endpoints) => {
            assert(types_view(endpoints@).len() == endpoints@.len());
            if endpoints.len() != 2 {
                return None;
            }
            assert(types_view(endpoints@)[0] == endpoints@[0]@);
            assert(types_view(endpoints@)[1] == endpoints@[1]@);
            match (endpoints[0].spsc_sender_inner_type(), endpoints[1].spsc_receiver_inner_type()) {
                (Some(sent), Some(received)) => {
                    if same_type(sent, received) {
                        Some(sent.clone())
                    } else {
                        None
                    }
                },
                _ => None,
            }
        },
        _ => None,
    }
}

impl LowerState {
    /// Whether a call is the compiler-owned channel constructor.
    pub open spec fn is_channel(self, name: Seq<char>) -> bool {
        self.resolver.names_function(name, "std/sync/spsc"@, "channel"@)
    }

    /// What a channel construction asks for first.
    pub open spec fn beginning_channel(
        self,
        args: Seq<Expr>,
        span: Span,
        expected: Option<TypeView>,
    ) -> (LowerState, StepView) {
        if args.len() != 1 && args.len() != 2 {
            (
                self.error(
                    "channel expects capacity, optionally followed by `&mut Receiver<T>`"@,
                    Some(span),
                ),
                StepView::Done(placeholder()),
            )
        } else {
            match channel_item(expected) {
                None => (
                    self.error(
                        "channel item type is ambiguous; annotate `(Sender<T>, Receiver<T>)` or `Sender<T>`"@,
                        Some(span),
                    ),
                    StepView::Done(placeholder()),
                ),
                Some(item) => match item_problem(item) {
                    Some(problem) => (
                        self.error(problem, Some(span)),
                        StepView::Done(placeholder()),
                    ),
                    None => (
                        self,
                        StepView::Wants { index: 0, expected: Some(TypeView::Usize) },
                    ),
                },
            }
        }
    }

    /// The local that the receiver of a channel is put in, or why the argument
    /// names none, and where.
    pub open spec fn output_local(self, argument: Expr, item: TypeView, span: Span) -> Result<
        LocalId,
        (Seq<char>, Span),
    > {
        match argument {
            Expr::Ref { expr, mutability: Mutability::Mutable, .. } => match *expr {
                Expr::Ident(name, place) => match value_of(self.bindings, name.0@) {
                    None => Err(("unknown receiver output `"@ + name.0@ + "`"@, place)),
                    Some(local) => {
                        let wanted = canonical_application(SPSC_RECEIVER_TYPE_CONSTRUCTOR@, item);
                        if self.local_type(local) != Some(wanted) {
                            let found = match self.local_type(local) {
                                Some(ty) => spelled(ty),
                                None => "unknown"@,
                            };
                            Err(
                                (
                                    "channel receiver output has type '"@ + found + "', expected '"@
                                        + spelled(wanted) + "'"@,
                                    place,
                                ),
                            )
                        } else if !self.locals[local.0 as int].mutable {
                            Err(("channel receiver output must be declared `mut`"@, place))
                        } else if self.state_of(local) != Some(LocalState::Uninitialized) {
                            Err(
                                (
                                    "channel receiver output must be uninitialized to avoid overwriting an endpoint"@,
                                    place,
                                ),
                            )
                        } else {
                            Ok(local)
                        }
                    },
                },
                _ => Err(("channel receiver output must be a direct local"@, span)),
            },
            _ => Err(("the second channel argument must be `&mut receiver`"@, span)),
        }
    }

    /// A channel whose receiver goes to a given local.
    pub open spec fn making_sender(self, receiver: LocalId, capacity: MirValue, item: TypeView) -> (
        LowerState,
        Option<RvalueView>,
    ) {
        let sender = LocalId(self.next_local);
        (
            self.with_typed_local(
                canonical_application(SPSC_SENDER_TYPE_CONSTRUCTOR@, item),
            ).assigned(
                sender,
                RvalueView::SpscChannelNew { capacity, out_receiver: receiver, elem_type: item },
            ).with_state(receiver, LocalState::Initialized),
            Some(RvalueView::Move(sender)),
        )
    }

    /// A channel whose endpoints form a pair.
    pub open spec fn making_pair(self, capacity: MirValue, item: TypeView, pair_name: Seq<char>) -> (
        LowerState,
        Option<RvalueView>,
    ) {
        let sender_type = canonical_application(SPSC_SENDER_TYPE_CONSTRUCTOR@, item);
        let receiver_type = canonical_application(SPSC_RECEIVER_TYPE_CONSTRUCTOR@, item);
        let receiver = LocalId(self.next_local);
        let with_receiver = self.with_typed_local(receiver_type);
        let sender = LocalId(with_receiver.next_local);
        let made = with_receiver.with_typed_local(sender_type).assigned(
            sender,
            RvalueView::SpscChannelNew { capacity, out_receiver: receiver, elem_type: item },
        ).with_state(receiver, LocalState::Initialized);
        let pair = LocalId(made.next_local);
        (
            made.with_typed_local(TypeView::Tuple(seq![sender_type, receiver_type])).assigned(
                pair,
                RvalueView::StructLit {
                    struct_name: pair_name,
                    field_values: seq![
                        ("0"@, MirValue::Local(sender)),
                        ("1"@, MirValue::Local(receiver)),
                    ],
                },
            ),
            Some(RvalueView::Move(pair)),
        )
    }

    /// A channel with a lowered capacity.
    pub open spec fn finishing_channel(
        self,
        args: Seq<Expr>,
        capacity: Option<LoweredView>,
        span: Span,
        expected: Option<TypeView>,
        pair_name: Seq<char>,
    ) -> (LowerState, Option<RvalueView>) {
        match (capacity, channel_item(expected)) {
            (Some(LoweredView { value, ty: Some(ty) }), Some(item)) => if !ty.is_int() {
                (self.error("SPSC channel capacity must be an integer"@, Some(span)), None)
            } else if args.len() == 2 {
                match self.output_local(args[1], item, span) {
                    Ok(receiver) => self.making_sender(receiver, value, item),
                    Err((problem, place)) => (self.error(problem, Some(place)), None),
                }
            } else {
                self.making_pair(value, item, pair_name)
            },
            _ => (self, None),
        }
    }

    /// The endpoint behind a receiver, its item type, and whether it sends.
    pub open spec fn endpoint(self, receiver: Expr) -> Option<(LocalId, TypeView, bool)> {
        match self.readable(receiver) {
            Some((local, ty)) => match canonical_argument(ty, SPSC_SENDER_TYPE_CONSTRUCTOR@) {
                Some(item) => Some((local, item, true)),
                None => match canonical_argument(ty, SPSC_RECEIVER_TYPE_CONSTRUCTOR@) {
                    Some(item) => Some((local, item, false)),
                    None => None,
                },
            },
            None => None,
        }
    }
}

impl<'a> LowerCtx<'a> {
    pub fn is_canonical_channel(&self, name: &str) -> (canonical: bool)
        ensures
            canonical == self@.is_channel(name@),
    {
        self.resolver.is_function_symbol(name, "std/sync/spsc", "channel")
    }

    fn validate_elem(&mut self, elem: &Type, span: Span) -> (valid: bool)
        ensures
            valid == item_problem(elem@) is None,
            final(self)@ == (match item_problem(elem@) {
                Some(problem) => old(self)@.error(problem, Some(span)),
                None => old(self)@,
            }),
    {
        if contains_borrow(elem) {
            self.error(
                "SPSC channels cannot carry borrowed references or borrowed callables; move owned data into the channel",
                Some(span),
            );
            return false;
        }
        if is_unit_type(elem) {
            self.error("SPSC channels require an addressable non-unit item type", Some(span));
            return false;
        }
        true
    }

    /// Starts a channel construction.
    pub fn begin_channel(&mut self, args: &Vec<Expr>, span: Span, expected: Option<&Type>) -> (step:
        Step)
        ensures
            (final(self)@, step@) == old(self)@.beginning_channel(
                args@,
                span,
                type_ref_view(expected),
            ),
    {
        if args.len() != 1 && args.len() != 2 {
            self.error(
                "channel expects capacity, optionally followed by `&mut Receiver<T>`",
                Some(span),
            );
            return Step::Done(Some(Rvalue::ConstInt(0)));
        }
        match channel_elem_from_expected(expected) {
            Some(item) => {
                if !self.validate_elem(&item, span) {
                    return Step::Done(Some(Rvalue::ConstInt(0)));
                }
                Step::Wants { index: 0, expected: Some(Type::Usize) }
            },
            None => {
                self.error(
                    "channel item type is ambiguous; annotate `(Sender<T>, Receiver<T>)` or `Sender<T>`",
                    Some(span),
                );
                Step::Done(Some(Rvalue::ConstInt(0)))
            },
        }
    }

    fn receiver_output_local(&mut self, argument: &Expr, item: &Type, span: Span) -> (local: Option<
        LocalId,
    >)
        ensures
            match (local, old(self)@.output_local(*argument, item@, span)) {
                (Some(local), Ok(found)) => local == found && final(self)@ == old(self)@,
                (None, Err((problem, place))) => final(self)@ == old(self)@.error(
                    problem,
                    Some(place),
                ),
                _ => false,
            },
    {
        let target: &Expr = match argument {
            Expr::Ref { expr, mutability: Mutability::Mutable, .. } => expr,
            _ => {
                self.error("the second channel argument must be `&mut receiver`", Some(span));
                return None;
            },
        };
        let (name, place) = match target {
            Expr::Ident(name, place) => (name, *place),
            _ => {
                self.error("channel receiver output must be a direct local", Some(span));
                return None;
            },
        };
        let local = match self.bound_local(name.0.as_str()) {
            Some(local) => local,
            None => {
                let message = concat3("unknown receiver output `", name.0.as_str(), "`");
                self.error(message.as_str(), Some(place));
                return None;
            },
        };
        let wanted = Type::spsc_receiver(item.clone());
        let matching = match self.local_ty(local) {
            Some(ty) => same_type(ty, &wanted),
            None => false,
        };
        if !matching {
            let found = match self.local_ty(local) {
                Some(ty) => type_label(ty),
                None => "unknown".to_owned(),
            };
            let message = concat5(
                "channel receiver output has type '",
                found.as_str(),
                "', expected '",
                type_label(&wanted).as_str(),
                "'",
            );
            self.error(message.as_str(), Some(place));
            return None;
        }
        let i: usize = local.0 as usize;
        if !self.locals[i].mutable {
            self.error("channel receiver output must be declared `mut`", Some(place));
            return None;
        }
        if !self.is_in_state(local, LocalState::Uninitialized) {
            self.error(
                "channel receiver output must be uninitialized to avoid overwriting an endpoint",
                Some(place),
            );
            return None;
        }
        Some(local)
    }

    fn make_pair(&mut self, capacity: MirValue, item: Type, pair_name: &str) -> (result: Option<Rvalue>)
        ensures
            (final(self)@, rvalue_option_view(result)) == old(self)@.making_pair(
                capacity,
                item@,
                pair_name@,
            ),
    {
        let receiver = self.typed_local(Type::spsc_receiver(item.clone()));
        let sender = self.typed_local(Type::spsc_sender(item.clone()));
        self.assign(
            sender,
            Rvalue::SpscChannelNew { capacity, out_receiver: receiver, elem_type: item.clone() },
        );
        self.set_state(receiver, LocalState::Initialized);
        let ghost view = item@;
        let endpoints: Vec<Type> = vec![
            Type::spsc_sender(item.clone()),
            Type::spsc_receiver(item),
        ];
        assert(types_view(endpoints@) =~= seq![
            canonical_application(SPSC_SENDER_TYPE_CONSTRUCTOR@, view),
            canonical_application(SPSC_RECEIVER_TYPE_CONSTRUCTOR@, view),
        ]);
        let pair = self.typed_local(Type::Tuple(endpoints));
        let field_values: Vec<(String, MirValue)> = vec![
            ("0".to_owned(), MirValue::Local(sender)),
            ("1".to_owned(), MirValue::Local(receiver)),
        ];
        assert(field_values_view(field_values@) =~= seq![
            ("0"@, MirValue::Local(sender)),
            ("1"@, MirValue::Local(receiver)),
        ]);
        self.assign(pair, Rvalue::StructLit { struct_name: pair_name.to_owned(), field_values });
        Some(Rvalue::Move(pair))
    }

    /// Finishes a channel construction with the lowered capacity. The endpoints
    /// form a value of the struct `pair_name` unless the receiver goes to a local
    /// that the second argument names.
    pub fn lower_channel(
        &mut self,
        args: &Vec<Expr>,
        capacity: Option<LoweredValue>,
        span: Span,
        expected: Option<&Type>,
        pair_name: &str,
    ) -> (result: Option<Rvalue>)
        ensures
            (final(self)@, rvalue_option_view(result)) == old(self)@.finishing_channel(
                args@,
                lowered_option_view(capacity),
                span,
                type_ref_view(expected),
                pair_name@,
            ),
    {
        let lowered = match capacity {
            Some(lowered) => lowered,
            None => {
                return None;
            },
        };
        let actual = match lowered.ty {
            Some(ty) => ty,
            None => {
                return None;
            },
        };
        let item = match channel_elem_from_expected(expected) {
            Some(item) => item,
            None => {
                return None;
            },
        };
        if !actual.is_int() {
            self.error("SPSC channel capacity must be an integer", Some(span));
            return None;
        }
        if args.len() == 2 {
            let receiver = match self.receiver_output_local(&args[1], &item, span) {
                Some(local) => local,
                None => {
                    return None;
                },
            };
            let sender = self.typed_local(Type::spsc_sender(item.clone()));
            self.assign(
                sender,
                Rvalue::SpscChannelNew {
                    capacity: lowered.value,
                    out_receiver: receiver,
                    elem_type: item,
                },
            );
            self.set_state(receiver, LocalState::Initialized);
            return Some(Rvalue::Move(sender));
        }
        self.make_pair(lowered.value, item, pair_name)
    }

    fn endpoint_receiver(&mut self, receiver: &Expr) -> (found: Option<(LocalId, Type, bool)>)
        ensures
            final(self)@ == old(self)@.checking_named(*receiver),
            match found {
                Some((local, item, sends)) => old(self)@.endpoint(*receiver) == Some(
                    (local, item@, sends),
                ),
                None => old(self)@.endpoint(*receiver) is None,
            },
    {
        let local = match self.readable_receiver(receiver) {
            Some(local) => local,
            None => {
                return None;
            },
        };
        match self.local_ty(local) {
            Some(ty) => match ty.spsc_sender_inner_type() {
                Some(item) => Some((local, item.clone(), true)),
                None => match ty.spsc_receiver_inner_type() {
                    Some(item) => Some((local, item.clone(), false)),
                    None => None,
                },
            },
            None => None,
        }
    }
}

/// What a method call on an endpoint does next.
#[derive(Debug)]
pub enum EndpointStep {
    Done(Option<Rvalue>),
    /// The value that is sent is to be lowered towards the item type.
    WantsItem { sender: LocalId, item: Type },
}

/// The mathematical model of an [`EndpointStep`].
pub enum EndpointStepView {
    Done(Option<RvalueView>),
    WantsItem { sender: LocalId, item: TypeView },
}

impl View for EndpointStep {
    type V = EndpointStepView;

    open spec fn view(&self) -> EndpointStepView {
        match *self {
            EndpointStep::Done(value) => EndpointStepView::Done(rvalue_option_view(value)),
            EndpointStep::WantsItem { sender, item } => EndpointStepView::WantsItem {
                sender,
                item: item@,
            },
        }
    }
}

pub open spec fn endpoint_step_view(step: Option<EndpointStep>) -> Option<EndpointStepView> {
    match step {
        Some(step) => Some(step@),
        None => None,
    }
}

impl LowerState {
    /// The outcome of a receive attempt: a value, empty or disconnected.
    pub open spec fn received(self, status: LocalId, value: LocalId, item: TypeView) -> (
        LowerState,
        RvalueView,
    ) {
        let is_value = LocalId(self.next_local);
        let asked = self.comparing(status, 0);
        let value_block = asked.next_block();
        let other_block = asked.with_new_block().next_block();
        let empty_block = asked.with_new_block().with_new_block().next_block();
        let closed_block = asked.with_new_block().with_new_block().with_new_block().next_block();
        let open = asked.with_new_block().with_new_block().with_new_block().with_new_block();
        let join = open.next_block();
        let joined = open.with_new_block();
        let result = LocalId(joined.next_local);
        let split = joined.with_typed_local(
            TypeView::App { base: RECV_RESULT@, args: seq![item] },
        ).branching(is_value, value_block, other_block);
        let some = split.at_block(value_block).with_state(value, LocalState::Initialized).yielding(
            result,
            RECV_RESULT@,
            0,
            Some(MirValue::Local(value)),
            join,
        );
        let other = some.with_state(result, LocalState::Uninitialized).at_block(other_block);
        let is_empty = LocalId(other.next_local);
        let parted = other.comparing(status, 1).branching(is_empty, empty_block, closed_block);
        let empty = parted.at_block(empty_block).yielding(result, RECV_RESULT@, 1, None, join);
        let closed = empty.with_state(result, LocalState::Uninitialized).at_block(
            closed_block,
        ).yielding(result, RECV_RESULT@, 2, None, join);
        (
            closed.with_state(result, LocalState::Initialized).with_state(
                value,
                LocalState::Moved,
            ).at_block(join),
            RvalueView::Move(result),
        )
    }

    /// A receive attempt.
    pub open spec fn receiving(self, receiver: LocalId, item: TypeView) -> (LowerState, RvalueView) {
        let value = LocalId(self.next_local);
        let with_value = self.with_typed_local(item);
        let status = LocalId(with_value.next_local);
        with_value.with_typed_local(TypeView::I32).assigned(
            status,
            RvalueView::SpscTryRecv { receiver, out_value: value, elem_type: item },
        ).received(status, value, item)
    }

    /// One of the two outcomes that give the item back.
    pub open spec fn giving_back(
        self,
        block: BlockId,
        variant: u32,
        unsent: LocalId,
        result: LocalId,
        join: BlockId,
    ) -> LowerState {
        self.at_block(block).with_state(unsent, LocalState::Initialized).yielding(
            result,
            SEND_RESULT@,
            variant,
            Some(MirValue::Local(unsent)),
            join,
        ).with_state(result, LocalState::Uninitialized)
    }

    /// The outcome of a send attempt: sent, or full or disconnected with the item
    /// given back.
    pub open spec fn sent(self, status: LocalId, unsent: LocalId, item: TypeView) -> (
        LowerState,
        RvalueView,
    ) {
        let is_sent = LocalId(self.next_local);
        let asked = self.comparing(status, 0);
        let sent_block = asked.next_block();
        let failure_block = asked.with_new_block().next_block();
        let full_block = asked.with_new_block().with_new_block().next_block();
        let closed_block = asked.with_new_block().with_new_block().with_new_block().next_block();
        let open = asked.with_new_block().with_new_block().with_new_block().with_new_block();
        let join = open.next_block();
        let joined = open.with_new_block();
        let result = LocalId(joined.next_local);
        let split = joined.with_typed_local(
            TypeView::App { base: SEND_RESULT@, args: seq![item] },
        ).branching(is_sent, sent_block, failure_block);
        let done = split.at_block(sent_block).yielding(result, SEND_RESULT@, 0, None, join);
        let failed = done.with_state(result, LocalState::Uninitialized).at_block(failure_block);
        let is_full = LocalId(failed.next_local);
        let parted = failed.comparing(status, 1).branching(is_full, full_block, closed_block);
        let back = parted.giving_back(full_block, 1, unsent, result, join).giving_back(
            closed_block,
            2,
            unsent,
            result,
            join,
        );
        (
            back.with_state(result, LocalState::Initialized).with_state(
                unsent,
                LocalState::Moved,
            ).at_block(join),
            RvalueView::Move(result),
        )
    }

    /// A send attempt with a lowered value.
    pub open spec fn sending(
        self,
        sender: LocalId,
        item: TypeView,
        value: Option<LoweredView>,
        span: Span,
    ) -> (LowerState, Option<RvalueView>) {
        match value {
            Some(LoweredView { value, ty: Some(actual) }) => if actual != item {
                (
                    self.error(
                        "Sender.try_send value has type '"@ + spelled(actual) + "', expected '"@
                            + spelled(item) + "'"@,
                        Some(span),
                    ),
                    None,
                )
            } else {
                let sent = self.localized(value);
                let ready = self.localizing(value, item);
                let unsent = LocalId(ready.next_local);
                let with_unsent = ready.with_typed_local(item);
                let status = LocalId(with_unsent.next_local);
                let (after, result) = with_unsent.with_typed_local(TypeView::I32).assigned(
                    status,
                    RvalueView::SpscTrySend {
                        sender,
                        value: sent,
                        out_unsent: unsent,
                        elem_type: item,
                    },
                ).sent(status, unsent, item);
                (after, Some(result))
            },
            _ => (self, None),
        }
    }

    /// A method of a channel endpoint. `None` means that the receiver is none, or
    /// has no such method, and normal method resolution continues.
    #[verifier::opaque]
    pub open spec fn endpoint_method(
        self,
        receiver: Expr,
        method: Seq<char>,
        args: Seq<Expr>,
        span: Span,
    ) -> (LowerState, Option<EndpointStepView>) {
        let checked = self.checking_named(receiver);
        let failed = |message: Seq<char>|
            (checked.error(message, Some(span)), Some(EndpointStepView::Done(None)));
        match self.endpoint(receiver) {
            None => (checked, None),
            Some((endpoint, item, sends)) => if sends && method == "try_send"@ {
                if args.len() != 1 {
                    failed("Sender.try_send expects exactly one value"@)
                } else {
                    (checked, Some(EndpointStepView::WantsItem { sender: endpoint, item }))
                }
            } else if !sends && method == "try_recv"@ {
                if args.len() != 0 {
                    failed("Receiver.try_recv does not take arguments"@)
                } else {
                    let (after, value) = checked.receiving(endpoint, item);
                    (after, Some(EndpointStepView::Done(Some(value))))
                }
            } else if method == "clone"@ {
                failed("SPSC endpoints are unique and cannot be cloned"@)
            } else if method == "try_recv"@ {
                failed("try_recv is only available on Receiver<T>"@)
            } else if method == "try_send"@ {
                failed("try_send is only available on Sender<T>"@)
            } else {
                (checked, None)
            },
        }
    }
}

impl<'a> LowerCtx<'a> {
    fn branch_on_status(&mut self, status: LocalId, value: LocalId, item: Type) -> (outcome: Rvalue)
        ensures
            (final(self)@, outcome@) == old(self)@.received(status, value, item@),
    {
        let is_value = self.compare_status(status, 0);
        let value_block = self.new_block();
        let other_block = self.new_block();
        let empty_block = self.new_block();
        let closed_block = self.new_block();
        let join = self.new_block();
        let result = self.typed_local(generic_type(RECV_RESULT, item));
        self.branch(is_value, value_block, other_block);
        self.switch_to(value_block);
        self.set_state(value, LocalState::Initialized);
        self.yield_variant(result, RECV_RESULT, 0, Some(MirValue::Local(value)), join);
        self.set_state(result, LocalState::Uninitialized);
        self.switch_to(other_block);
        let is_empty = self.compare_status(status, 1);
        self.branch(is_empty, empty_block, closed_block);
        self.switch_to(empty_block);
        self.yield_variant(result, RECV_RESULT, 1, None, join);
        self.set_state(result, LocalState::Uninitialized);
        self.switch_to(closed_block);
        self.yield_variant(result, RECV_RESULT, 2, None, join);
        self.set_state(result, LocalState::Initialized);
        self.set_state(value, LocalState::Moved);
        self.switch_to(join);
        Rvalue::Move(result)
    }

    fn give_back(
        &mut self,
        block: BlockId,
        variant: u32,
        unsent: LocalId,
        result: LocalId,
        join: BlockId,
    )
        ensures
            final(self)@ == old(self)@.giving_back(block, variant, unsent, result, join),
    {
        self.switch_to(block);
        self.set_state(unsent, LocalState::Initialized);
        self.yield_variant(result, SEND_RESULT, variant, Some(MirValue::Local(unsent)), join);
        self.set_state(result, LocalState::Uninitialized);
    }

    fn branch_on_sent(&mut self, status: LocalId, unsent: LocalId, item: Type) -> (outcome: Rvalue)
        ensures
            (final(self)@, outcome@) == old(self)@.sent(status, unsent, item@),
    {
        let is_sent = self.compare_status(status, 0);
        let sent_block = self.new_block();
        let failure_block = self.new_block();
        let full_block = self.new_block();
        let closed_block = self.new_block();
        let join = self.new_block();
        let result = self.typed_local(generic_type(SEND_RESULT, item));
        self.branch(is_sent, sent_block, failure_block);
        self.switch_to(sent_block);
        self.yield_variant(result, SEND_RESULT, 0, None, join);
        self.set_state(result, LocalState::Uninitialized);
        self.switch_to(failure_block);
        let is_full = self.compare_status(status, 1);
        self.branch(is_full, full_block, closed_block);
        self.give_back(full_block, 1, unsent, result, join);
        self.give_back(closed_block, 2, unsent, result, join);
        self.set_state(result, LocalState::Initialized);
        self.set_state(unsent, LocalState::Moved);
        self.switch_to(join);
        Rvalue::Move(result)
    }

    /// Finishes a send attempt with the lowered value.
    pub fn lower_try_send(
        &mut self,
        sender: LocalId,
        item: Type,
        value: Option<LoweredValue>,
        span: Span,
    ) -> (result: Option<Rvalue>)
        ensures
            (final(self)@, rvalue_option_view(result)) == old(self)@.sending(
                sender,
                item@,
                lowered_option_view(value),
                span,
            ),
    {
        let lowered = match value {
            Some(lowered) => lowered,
            None => {
                return None;
            },
        };
        let actual = match lowered.ty {
            Some(ty) => ty,
            None => {
                return None;
            },
        };
        if !same_type(&actual, &item) {
            let message = concat5(
                "Sender.try_send value has type '",
                type_label(&actual).as_str(),
                "', expected '",
                type_label(&item).as_str(),
                "'",
            );
            self.error(message.as_str(), Some(span));
            return None;
        }
        let sent = self.localize(lowered.value, item.clone());
        let unsent = self.typed_local(item.clone());
        let status = self.typed_local(Type::I32);
        self.assign(
            status,
            Rvalue::SpscTrySend {
                sender,
                value: sent,
                out_unsent: unsent,
                elem_type: item.clone(),
            },
        );
        Some(self.branch_on_sent(status, unsent, item))
    }

    fn lower_try_recv(&mut self, receiver: LocalId, item: Type) -> (value: Rvalue)
        ensures
            (final(self)@, value@) == old(self)@.receiving(receiver, item@),
    {
        let value = self.typed_local(item.clone());
        let status = self.typed_local(Type::I32);
        self.assign(
            status,
            Rvalue::SpscTryRecv { receiver, out_value: value, elem_type: item.clone() },
        );
        self.branch_on_status(status, value, item)
    }

    fn fail_endpoint(&mut self, message: &str, span: Span) -> (step: Option<EndpointStep>)
        ensures
            final(self)@ == old(self)@.error(message@, Some(span)),
            endpoint_step_view(step) == Some(EndpointStepView::Done(None)),
    {
        self.error(message, Some(span));
        Some(EndpointStep::Done(None))
    }

    /// A method of a channel endpoint. `None` means that the receiver is none, or
    /// has no such method, and normal method resolution continues.
    pub fn lower_spsc_method(
        &mut self,
        receiver: &Expr,
        method: &str,
        args: &Vec<Expr>,
        span: Span,
    ) -> (step: Option<EndpointStep>)
        ensures
            (final(self)@, endpoint_step_view(step)) == old(self)@.endpoint_method(
                *receiver,
                method@,
                args@,
                span,
            ),
    {
        proof {
            reveal(LowerState::endpoint_method);
        }
        let (endpoint, item, sends) = match self.endpoint_receiver(receiver) {
            Some(found) => found,
            None => {
                return None;
            },
        };
        if sends && same_text(method, "try_send") {
            if args.len() != 1 {
                return self.fail_endpoint("Sender.try_send expects exactly one value", span);
            }
            Some(EndpointStep::WantsItem { sender: endpoint, item })
        } else if !sends && same_text(method, "try_recv") {
            if args.len() != 0 {
                return self.fail_endpoint("Receiver.try_recv does not take arguments", span);
            }
            Some(EndpointStep::Done(Some(self.lower_try_recv(endpoint, item))))
        } else if same_text(method, "clone") {
            self.fail_endpoint("SPSC endpoints are unique and cannot be cloned", span)
        } else if same_text(method, "try_recv") {
            self.fail_endpoint("try_recv is only available on Receiver<T>", span)
        } else if same_text(method, "try_send") {
            self.fail_endpoint("try_send is only available on Sender<T>", span)
        } else {
            None
        }
    }
}

} // verus!
