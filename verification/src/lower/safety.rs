//! Thread-safety types of the types that lowering meets.
//!
//! Structural types get one nominal identity per definition; compiler-known
//! containers and runtime handles get theirs from the resolved declaration, not
//! from how the source spells them.

use vstd::prelude::*;

use crate::resolver::{ResolvedSymbol, ResolverContext};
use crate::table::{value_of, with_entry, NameMap};
use crate::text::{concat3, replace, replaced, same_text};
use crate::thread::{is_canonical_thread_handle, THREAD_HANDLE_TYPE};
use crate::thread_safety::{
    entering_a_definition_leaves_fewer, is_visiting, safety_fields_view, safety_option_view, safety_types_view,
    safety_variants_view, unvisited, visits, ApplicationPolicyView, CanonicalApplicationPolicy,
    CanonicalConstructorId, CanonicalNominalId, DefinitionsView, IdentitySpaces,
    NominalPolicyView, NominalThreadSafetyPolicy, RegistryView, ThreadSafetyRegistry,
    ThreadSafetyType, ThreadSafetyTypeView, VisitKey,
};
use crate::types::{
    canonical_argument, types_view, EnumVariant, Type, TypeView, ARC_TYPE_CONSTRUCTOR,
    MUTEX_GUARD_TYPE_CONSTRUCTOR, MUTEX_TYPE_CONSTRUCTOR, SPSC_RECEIVER_TYPE_CONSTRUCTOR,
    SPSC_SENDER_TYPE_CONSTRUCTOR,
};

verus! {

/// Why mutex guards never cross a thread boundary.
pub const GUARD_REASON: &'static str = "mutex guards are lexical, thread-affine lock tokens";

/// The identities of the compiler-known one-argument containers.
#[derive(Debug, Clone, Copy)]
pub struct ContainerIds {
    pub join_handle: CanonicalConstructorId,
    pub arc: CanonicalConstructorId,
    pub mutex: CanonicalConstructorId,
    pub mutex_guard: CanonicalConstructorId,
    pub spsc_sender: CanonicalConstructorId,
    pub spsc_receiver: CanonicalConstructorId,
}

/// What stays the same while types are given thread-safety types.
pub struct SafetyNames {
    pub defs: DefinitionsView,
    pub symbols: Seq<(Seq<char>, ResolvedSymbol)>,
    pub space: u64,
    pub runtime: Seq<(Seq<char>, CanonicalNominalId)>,
    pub ids: ContainerIds,
}

/// The nominal types registered so far, and the identity of each definition
/// among them.
pub struct Registered {
    pub nominals: Seq<(Seq<char>, NominalPolicyView)>,
    pub structural: Seq<(Seq<char>, CanonicalNominalId)>,
}

/// Whether `name` is the qualified path of a struct or resolves to it.
pub open spec fn resolves_to(
    symbols: Seq<(Seq<char>, ResolvedSymbol)>,
    name: Seq<char>,
    module: Seq<char>,
    symbol: Seq<char>,
) -> bool {
    name == replaced(module, "/"@, "::"@) + "::"@ + symbol || (value_of(symbols, name) matches Some(
        ResolvedSymbol::Struct(m, s),
    ) && m@ == module && s@ == symbol)
}

/// The identity of the runtime handle that `name` spells or resolves to.
pub open spec fn runtime_identity(names: SafetyNames, name: Seq<char>) -> Option<
    CanonicalNominalId,
> {
    match value_of(names.runtime, name) {
        Some(id) => Some(id),
        None => match value_of(names.symbols, name) {
            Some(ResolvedSymbol::Struct(module, symbol)) => value_of(
                names.runtime,
                replaced(module@, "/"@, "::"@) + "::"@ + symbol@,
            ),
            _ => None,
        },
    }
}

/// The container that a type is a one-argument application of.
pub open spec fn container(names: SafetyNames, ty: TypeView) -> Option<CanonicalConstructorId> {
    match ty {
        TypeView::App { base, args } => if args.len() != 1 {
            None
        } else if resolves_to(names.symbols, base, "std/sync"@, "Arc"@) {
            Some(names.ids.arc)
        } else if resolves_to(names.symbols, base, "std/sync"@, "Mutex"@) {
            Some(names.ids.mutex)
        } else if resolves_to(names.symbols, base, "std/sync"@, "MutexGuard"@) {
            Some(names.ids.mutex_guard)
        } else if resolves_to(names.symbols, base, "std/thread"@, "JoinHandle"@) {
            Some(names.ids.join_handle)
        } else if resolves_to(names.symbols, base, "std/sync/spsc"@, "Sender"@) {
            Some(names.ids.spsc_sender)
        } else if resolves_to(names.symbols, base, "std/sync/spsc"@, "Receiver"@) {
            Some(names.ids.spsc_receiver)
        } else if ty.is_arc() {
            Some(names.ids.arc)
        } else if ty.is_mutex() {
            Some(names.ids.mutex)
        } else if ty.is_mutex_guard() {
            Some(names.ids.mutex_guard)
        } else if ty.is_spsc_sender() {
            Some(names.ids.spsc_sender)
        } else if ty.is_spsc_receiver() {
            Some(names.ids.spsc_receiver)
        } else if canonical_argument(ty, THREAD_HANDLE_TYPE@) is Some {
            Some(names.ids.join_handle)
        } else {
            None
        },
        _ => None,
    }
}

/// The thread-safety type of `ty`, and what is registered afterwards. A
/// definition is registered when its first use is met, after its parts; a
/// definition under examination stays plain.
pub open spec fn typed(
    names: SafetyNames,
    done: Registered,
    ty: TypeView,
    visiting: Seq<(bool, Seq<char>)>,
) -> (ThreadSafetyTypeView, Registered)
    decreases unvisited(names.defs, visiting), 0nat, ty, 1nat,
{
    match ty {
        TypeView::Own(inner) => {
            let (part, after) = typed(names, done, *inner, visiting);
            (ThreadSafetyTypeView::Own(Box::new(part)), after)
        },
        TypeView::Array(inner, len) => {
            let (part, after) = typed(names, done, *inner, visiting);
            (ThreadSafetyTypeView::Array { element: Box::new(part), len }, after)
        },
        TypeView::Tuple(elements) => {
            let (parts, after) = typed_list(names, done, elements, visiting, 0);
            (ThreadSafetyTypeView::Tuple(parts), after)
        },
        TypeView::Named(name) => match runtime_identity(names, name) {
            Some(id) => (ThreadSafetyTypeView::Nominal(id), done),
            None => typed_definition(names, done, ty, visiting, false, name),
        },
        TypeView::Enum(name) => typed_definition(names, done, ty, visiting, true, name),
        TypeView::App { base, args } => match container(names, ty) {
            Some(id) => {
                let (parts, after) = typed_list(names, done, args, visiting, 0);
                (ThreadSafetyTypeView::Application { constructor: id, args: parts }, after)
            },
            None => (ThreadSafetyTypeView::Plain(ty), done),
        },
        _ => (ThreadSafetyTypeView::Plain(ty), done),
    }
}

/// The thread-safety types of a list from position `i` on.
pub open spec fn typed_list(
    names: SafetyNames,
    done: Registered,
    types: Seq<TypeView>,
    visiting: Seq<(bool, Seq<char>)>,
    i: int,
) -> (Seq<ThreadSafetyTypeView>, Registered)
    decreases unvisited(names.defs, visiting), 0nat, types, types.len() - i,
{
    if i < 0 || i >= types.len() {
        (Seq::empty(), done)
    } else {
        let (first, after) = typed(names, done, types[i], visiting);
        let (rest, last) = typed_list(names, after, types, visiting, i + 1);
        (seq![first] + rest, last)
    }
}

/// The thread-safety type of a struct or an enum.
pub open spec fn typed_definition(
    names: SafetyNames,
    done: Registered,
    ty: TypeView,
    visiting: Seq<(bool, Seq<char>)>,
    is_enum: bool,
    name: Seq<char>,
) -> (ThreadSafetyTypeView, Registered)
    decreases unvisited(names.defs, visiting), 0nat, ty, 0nat,
{
    match value_of(done.structural, name) {
        Some(id) => (ThreadSafetyTypeView::Nominal(id), done),
        None => if visiting.contains((false, name)) || visiting.contains((true, name)) {
            (ThreadSafetyTypeView::Plain(ty), done)
        } else {
            proof {
                entering_a_definition_leaves_fewer(names.defs, visiting, (is_enum, name));
            }
            let inside = visiting.push((is_enum, name));
            if is_enum {
                match value_of(names.defs.enums, name) {
                    Some(definition) => {
                        let (variants, after) = typed_variants(
                            names,
                            done,
                            definition.variants@,
                            inside,
                            0,
                        );
                        registered(
                            names,
                            after,
                            name,
                            NominalPolicyView::MonomorphicEnum { variants },
                        )
                    },
                    None => (ThreadSafetyTypeView::Plain(ty), done),
                }
            } else {
                match value_of(names.defs.structs, name) {
                    Some(definition) => {
                        let (fields, after) = typed_fields(
                            names,
                            done,
                            definition.fields@,
                            inside,
                            0,
                        );
                        registered(
                            names,
                            after,
                            name,
                            NominalPolicyView::MonomorphicStruct { fields },
                        )
                    },
                    None => (ThreadSafetyTypeView::Plain(ty), done),
                }
            }
        },
    }
}

/// A definition whose parts are known is registered under its name.
pub open spec fn registered(
    names: SafetyNames,
    done: Registered,
    name: Seq<char>,
    policy: NominalPolicyView,
) -> (ThreadSafetyTypeView, Registered) {
    let id = CanonicalNominalId::issued(names.space, done.nominals.len() as int);
    (
        ThreadSafetyTypeView::Nominal(id),
        Registered {
            nominals: done.nominals.push((name, policy)),
            structural: with_entry(done.structural, name, id),
        },
    )
}

/// The thread-safety types of a struct's fields from position `i` on.
pub open spec fn typed_fields(
    names: SafetyNames,
    done: Registered,
    fields: Seq<(String, Type)>,
    visiting: Seq<(bool, Seq<char>)>,
    i: int,
) -> (Seq<(Seq<char>, ThreadSafetyTypeView)>, Registered)
    decreases unvisited(names.defs, visiting), 1nat, fields, fields.len() - i,
{
    if i < 0 || i >= fields.len() {
        (Seq::empty(), done)
    } else {
        let (first, after) = typed(names, done, fields[i].1@, visiting);
        let (rest, last) = typed_fields(names, after, fields, visiting, i + 1);
        (seq![(fields[i].0@, first)] + rest, last)
    }
}

/// The thread-safety types of an enum's payloads from position `i` on.
pub open spec fn typed_variants(
    names: SafetyNames,
    done: Registered,
    variants: Seq<EnumVariant>,
    visiting: Seq<(bool, Seq<char>)>,
    i: int,
) -> (Seq<(Seq<char>, Option<ThreadSafetyTypeView>)>, Registered)
    decreases unvisited(names.defs, visiting), 1nat, variants, variants.len() - i,
{
    if i < 0 || i >= variants.len() {
        (Seq::empty(), done)
    } else {
        let (first, after) = match variants[i].payload {
            Some(payload) => {
                let (part, after) = typed(names, done, payload@, visiting);
                (Some(part), after)
            },
            None => (None, done),
        };
        let (rest, last) = typed_variants(names, after, variants, visiting, i + 1);
        (seq![(variants[i].name@, first)] + rest, last)
    }
}

/// Gives types their thread-safety types and registers definitions on the way.
pub struct SafetyTyping<'a> {
    pub resolver: &'a ResolverContext,
    pub registry: ThreadSafetyRegistry<'a>,
    pub runtime_nominals: NameMap<CanonicalNominalId>,
    pub structural_nominals: NameMap<CanonicalNominalId>,
    pub ids: ContainerIds,
}

/// The mathematical model of a [`SafetyTyping`].
pub struct SafetyTypingView {
    pub defs: DefinitionsView,
    pub symbols: Seq<(Seq<char>, ResolvedSymbol)>,
    pub registry: RegistryView,
    pub runtime: Seq<(Seq<char>, CanonicalNominalId)>,
    pub structural: Seq<(Seq<char>, CanonicalNominalId)>,
    pub ids: ContainerIds,
}

impl<'a> View for SafetyTyping<'a> {
    type V = SafetyTypingView;

    open spec fn view(&self) -> SafetyTypingView {
        SafetyTypingView {
            defs: DefinitionsView {
                structs: self.resolver.struct_types@,
                enums: self.resolver.enum_types@,
            },
            symbols: self.resolver.symbols@,
            registry: self.registry@,
            runtime: self.runtime_nominals@,
            structural: self.structural_nominals@,
            ids: self.ids,
        }
    }
}

impl SafetyTypingView {
    pub open spec fn names(self) -> SafetyNames {
        SafetyNames {
            defs: self.defs,
            symbols: self.symbols,
            space: self.registry.space,
            runtime: self.runtime,
            ids: self.ids,
        }
    }

    pub open spec fn done(self) -> Registered {
        Registered { nominals: self.registry.nominals, structural: self.structural }
    }

    /// The same with more registered.
    pub open spec fn with(self, done: Registered) -> SafetyTypingView {
        SafetyTypingView {
            registry: RegistryView { nominals: done.nominals, ..self.registry },
            structural: done.structural,
            ..self
        }
    }

    /// The thread-safety type of a type.
    pub open spec fn safety_type(self, ty: TypeView) -> ThreadSafetyTypeView {
        typed(self.names(), self.done(), ty, Seq::empty()).0
    }

    /// What is known after a type was given its thread-safety type.
    pub open spec fn after_typing(self, ty: TypeView) -> SafetyTypingView {
        self.with(typed(self.names(), self.done(), ty, Seq::empty()).1)
    }
}

impl<'a> SafetyTyping<'a> {
    fn resolves_to_struct(&self, name: &str, module: &str, symbol: &str) -> (resolves: bool)
        ensures
            resolves == resolves_to(self@.symbols, name@, module@, symbol@),
    {
        let path = replace(module, "/", "::");
        let qualified = concat3(path.as_str(), "::", symbol);
        same_text(name, qualified.as_str()) || self.resolver.is_struct_symbol(name, module, symbol)
    }

    fn runtime_nominal_identity(&self, name: &str) -> (id: Option<CanonicalNominalId>)
        ensures
            id == runtime_identity(self@.names(), name@),
    {
        match self.runtime_nominals.get(name) {
            Some(id) => Some(*id),
            None => match self.resolver.resolve_symbol(name) {
                Some(ResolvedSymbol::Struct(module, symbol)) => {
                    let path = replace(module.as_str(), "/", "::");
                    let canonical = concat3(path.as_str(), "::", symbol.as_str());
                    match self.runtime_nominals.get(canonical.as_str()) {
                        Some(id) => Some(*id),
                        None => None,
                    }
                },
                _ => None,
            },
        }
    }

    fn container_identity(&self, ty: &Type) -> (id: Option<CanonicalConstructorId>)
        ensures
            id == container(self@.names(), ty@),
    {
        let base = match ty {
            Type::App { base, args } => {
                proof {
                    assert(types_view(args@).len() == args@.len());
                }
                if args.len() != 1 {
                    return None;
                }
                base.as_str()
            },
            _ => {
                return None;
            },
        };
        if self.resolves_to_struct(base, "std/sync", "Arc") {
            Some(self.ids.arc)
        } else if self.resolves_to_struct(base, "std/sync", "Mutex") {
            Some(self.ids.mutex)
        } else if self.resolves_to_struct(base, "std/sync", "MutexGuard") {
            Some(self.ids.mutex_guard)
        } else if self.resolves_to_struct(base, "std/thread", "JoinHandle") {
            Some(self.ids.join_handle)
        } else if self.resolves_to_struct(base, "std/sync/spsc", "Sender") {
            Some(self.ids.spsc_sender)
        } else if self.resolves_to_struct(base, "std/sync/spsc", "Receiver") {
            Some(self.ids.spsc_receiver)
        } else if ty.is_arc() {
            Some(self.ids.arc)
        } else if ty.is_mutex() {
            Some(self.ids.mutex)
        } else if ty.is_mutex_guard() {
            Some(self.ids.mutex_guard)
        } else if ty.is_spsc_sender() {
            Some(self.ids.spsc_sender)
        } else if ty.is_spsc_receiver() {
            Some(self.ids.spsc_receiver)
        } else if is_canonical_thread_handle(ty) {
            Some(self.ids.join_handle)
        } else {
            None
        }
    }

    /// The thread-safety type of a type. Definitions met for the first time are
    /// registered.
    pub fn thread_safety_type(&mut self, ty: &Type) -> (safety: ThreadSafetyType)
        ensures
            safety@ == old(self)@.safety_type(ty@),
            final(self)@ == old(self)@.after_typing(ty@),
            final(self).resolver == old(self).resolver,
    {
        let mut visiting: Vec<VisitKey> = Vec::new();
        assert(visits(visiting@) =~= Seq::empty());
        self.thread_safety_type_inner(ty, &mut visiting)
    }

    fn thread_safety_type_inner(&mut self, ty: &Type, visiting: &mut Vec<VisitKey>) -> (safety:
        ThreadSafetyType)
        ensures
            (safety@, final(self)@.done()) == typed(
                old(self)@.names(),
                old(self)@.done(),
                ty@,
                visits(old(visiting)@),
            ),
            final(self)@ == old(self)@.with(final(self)@.done()),
            final(self).resolver == old(self).resolver,
            final(visiting)@ == old(visiting)@,
        decreases unvisited(old(self)@.defs, visits(old(visiting)@)), 0nat, ty, 1nat,
    {
        match ty {
            Type::Own(inner) => {
                let target: &Type = inner;
                assert(*(ty@->Own_0) == target@);
                ThreadSafetyType::own(self.thread_safety_type_inner(target, visiting))
            },
            Type::Array(inner, len) => {
                let target: &Type = inner;
                assert(*(ty@->Array_0) == target@);
                ThreadSafetyType::array(self.thread_safety_type_inner(target, visiting), *len)
            },
            Type::Tuple(elements) => {
                let parts = self.thread_safety_list(elements, visiting);
                ThreadSafetyType::tuple(parts)
            },
            Type::Named(name) => match self.runtime_nominal_identity(name.as_str()) {
                Some(id) => ThreadSafetyType::nominal(id),
                None => self.thread_safety_definition(ty, visiting, false, name.as_str()),
            },
            Type::Enum(name) => self.thread_safety_definition(ty, visiting, true, name.as_str()),
            Type::App { base, args } => match self.container_identity(ty) {
                Some(id) => {
                    let parts = self.thread_safety_list(args, visiting);
                    ThreadSafetyType::application(id, parts)
                },
                None => ThreadSafetyType::plain(ty.clone()),
            },
            _ => ThreadSafetyType::plain(ty.clone()),
        }
    }

    fn thread_safety_list(&mut self, types: &Vec<Type>, visiting: &mut Vec<VisitKey>) -> (parts:
        Vec<ThreadSafetyType>)
        ensures
            (safety_types_view(parts@), final(self)@.done()) == typed_list(
                old(self)@.names(),
                old(self)@.done(),
                types_view(types@),
                visits(old(visiting)@),
                0,
            ),
            final(self)@ == old(self)@.with(final(self)@.done()),
            final(self).resolver == old(self).resolver,
            final(visiting)@ == old(visiting)@,
        decreases unvisited(old(self)@.defs, visits(old(visiting)@)), 0nat, types, 0nat,
    {
        let ghost names = self@.names();
        let ghost views = types_view(types@);
        let ghost under = visits(visiting@);
        let ghost whole = typed_list(names, self@.done(), views, under, 0);
        let mut parts: Vec<ThreadSafetyType> = Vec::new();
        let mut i: usize = 0;
        assert(safety_types_view(parts@) =~= Seq::empty());
        assert(whole.0 =~= Seq::<ThreadSafetyTypeView>::empty() + whole.0);
        while i < types.len()
            invariant
                i <= types.len(),
                views == types_view(types@),
                views.len() == types.len(),
                names == old(self)@.names(),
                self@ == old(self)@.with(self@.done()),
                self.resolver == old(self).resolver,
                visiting@ == old(visiting)@,
                under == visits(old(visiting)@),
                ({
                    let rest = typed_list(names, self@.done(), views, under, i as int);
                    whole == (safety_types_view(parts@) + rest.0, rest.1)
                }),
            decreases types.len() - i,
        {
            let ghost before = safety_types_view(parts@);
            let ghost rest = typed_list(names, self@.done(), views, under, i as int);
            let ghost next = typed_list(
                names,
                typed(names, self@.done(), views[i as int], under).1,
                views,
                under,
                i + 1,
            );
            assert(views[i as int] == types@[i as int]@);
            let part = self.thread_safety_type_inner(&types[i], visiting);
            assert(rest.0 == seq![part@] + next.0);
            parts.push(part);
            assert(safety_types_view(parts@) =~= before + seq![part@]);
            assert(safety_types_view(parts@) + next.0 =~= before + rest.0);
            i += 1;
        }
        assert(whole.0 =~= safety_types_view(parts@));
        parts
    }

    fn thread_safety_definition(
        &mut self,
        ty: &Type,
        visiting: &mut Vec<VisitKey>,
        is_enum: bool,
        name: &str,
    ) -> (safety: ThreadSafetyType)
        ensures
            (safety@, final(self)@.done()) == typed_definition(
                old(self)@.names(),
                old(self)@.done(),
                ty@,
                visits(old(visiting)@),
                is_enum,
                name@,
            ),
            final(self)@ == old(self)@.with(final(self)@.done()),
            final(self).resolver == old(self).resolver,
            final(visiting)@ == old(visiting)@,
        decreases unvisited(old(self)@.defs, visits(old(visiting)@)), 0nat, ty, 0nat,
    {
        match self.structural_nominals.get(name) {
            Some(id) => {
                return ThreadSafetyType::nominal(*id);
            },
            None => {},
        }
        if is_visiting(visiting, false, name) || is_visiting(visiting, true, name) {
            return ThreadSafetyType::plain(ty.clone());
        }
        proof {
            entering_a_definition_leaves_fewer(self@.defs, visits(visiting@), (is_enum, name@));
        }
        let resolver = self.resolver;
        let ghost entered = visits(visiting@).push((is_enum, name@));
        let policy = if is_enum {
            match resolver.get_enum(name) {
                Some(definition) => {
                    visiting.push(VisitKey { is_enum, name: name.to_owned() });
                    assert(visits(visiting@) =~= entered);
                    let variants = self.thread_safety_variants(&definition.variants, visiting);
                    NominalThreadSafetyPolicy::MonomorphicEnum { variants }
                },
                None => {
                    return ThreadSafetyType::plain(ty.clone());
                },
            }
        } else {
            match resolver.get_struct(name) {
                Some(definition) => {
                    visiting.push(VisitKey { is_enum, name: name.to_owned() });
                    assert(visits(visiting@) =~= entered);
                    let fields = self.thread_safety_fields(&definition.fields, visiting);
                    NominalThreadSafetyPolicy::MonomorphicStruct { fields }
                },
                None => {
                    return ThreadSafetyType::plain(ty.clone());
                },
            }
        };
        visiting.pop();
        assert(visiting@ =~= old(visiting)@);
        let id = self.registry.register_nominal(name, policy);
        self.structural_nominals.insert(name.to_owned(), id);
        ThreadSafetyType::nominal(id)
    }

    fn thread_safety_fields(
        &mut self,
        fields: &Vec<(String, Type)>,
        visiting: &mut Vec<VisitKey>,
    ) -> (parts: Vec<(String, ThreadSafetyType)>)
        ensures
            (safety_fields_view(parts@), final(self)@.done()) == typed_fields(
                old(self)@.names(),
                old(self)@.done(),
                fields@,
                visits(old(visiting)@),
                0,
            ),
            final(self)@ == old(self)@.with(final(self)@.done()),
            final(self).resolver == old(self).resolver,
            final(visiting)@ == old(visiting)@,
        decreases unvisited(old(self)@.defs, visits(old(visiting)@)), 1nat, fields, 0nat,
    {
        let ghost names = self@.names();
        let ghost under = visits(visiting@);
        let ghost whole = typed_fields(names, self@.done(), fields@, under, 0);
        let mut parts: Vec<(String, ThreadSafetyType)> = Vec::new();
        let mut i: usize = 0;
        assert(safety_fields_view(parts@) =~= Seq::empty());
        assert(whole.0 =~= Seq::<(Seq<char>, ThreadSafetyTypeView)>::empty() + whole.0);
        while i < fields.len()
            invariant
                i <= fields.len(),
                names == old(self)@.names(),
                self@ == old(self)@.with(self@.done()),
                self.resolver == old(self).resolver,
                visiting@ == old(visiting)@,
                under == visits(old(visiting)@),
                ({
                    let rest = typed_fields(names, self@.done(), fields@, under, i as int);
                    whole == (safety_fields_view(parts@) + rest.0, rest.1)
                }),
            decreases fields.len() - i,
        {
            let ghost before = safety_fields_view(parts@);
            let ghost rest = typed_fields(names, self@.done(), fields@, under, i as int);
            let ghost next = typed_fields(
                names,
                typed(names, self@.done(), fields@[i as int].1@, under).1,
                fields@,
                under,
                i + 1,
            );
            let part = self.thread_safety_type_inner(&fields[i].1, visiting);
            let ghost entry = (fields@[i as int].0@, part@);
            assert(rest.0 == seq![entry] + next.0);
            parts.push((fields[i].0.clone(), part));
            assert(safety_fields_view(parts@) =~= before + seq![entry]);
            assert(safety_fields_view(parts@) + next.0 =~= before + rest.0);
            i += 1;
        }
        assert(whole.0 =~= safety_fields_view(parts@));
        parts
    }

    fn thread_safety_variants(
        &mut self,
        variants: &Vec<EnumVariant>,
        visiting: &mut Vec<VisitKey>,
    ) -> (parts: Vec<(String, Option<ThreadSafetyType>)>)
        ensures
            (safety_variants_view(parts@), final(self)@.done()) == typed_variants(
                old(self)@.names(),
                old(self)@.done(),
                variants@,
                visits(old(visiting)@),
                0,
            ),
            final(self)@ == old(self)@.with(final(self)@.done()),
            final(self).resolver == old(self).resolver,
            final(visiting)@ == old(visiting)@,
        decreases unvisited(old(self)@.defs, visits(old(visiting)@)), 1nat, variants, 0nat,
    {
        let ghost names = self@.names();
        let ghost under = visits(visiting@);
        let ghost whole = typed_variants(names, self@.done(), variants@, under, 0);
        let mut parts: Vec<(String, Option<ThreadSafetyType>)> = Vec::new();
        let mut i: usize = 0;
        assert(safety_variants_view(parts@) =~= Seq::empty());
        assert(whole.0 =~= Seq::<(Seq<char>, Option<ThreadSafetyTypeView>)>::empty() + whole.0);
        while i < variants.len()
            invariant
                i <= variants.len(),
                names == old(self)@.names(),
                self@ == old(self)@.with(self@.done()),
                self.resolver == old(self).resolver,
                visiting@ == old(visiting)@,
                under == visits(old(visiting)@),
                ({
                    let rest = typed_variants(names, self@.done(), variants@, under, i as int);
                    whole == (safety_variants_view(parts@) + rest.0, rest.1)
                }),
            decreases variants.len() - i,
        {
            let ghost before = safety_variants_view(parts@);
            let ghost rest = typed_variants(names, self@.done(), variants@, under, i as int);
            let variant = &variants[i];
            let part = match &variant.payload {
                Some(payload) => Some(self.thread_safety_type_inner(payload, visiting)),
                None => None,
            };
            let ghost next = typed_variants(names, self@.done(), variants@, under, i + 1);
            let ghost entry = (variant.name@, safety_option_view(part));
            assert(rest.0 == seq![entry] + next.0);
            parts.push((variant.name.clone(), part));
            assert(safety_variants_view(parts@) =~= before + seq![entry]);
            assert(safety_variants_view(parts@) + next.0 =~= before + rest.0);
            i += 1;
        }
        assert(whole.0 =~= safety_variants_view(parts@));
        parts
    }
}

/// A runtime handle type with its audited rule.
pub struct RuntimeHandle {
    pub name: &'static str,
    pub send: bool,
    pub sync: bool,
    pub reason: &'static str,
}

/// The runtime handle types of the standard library.
pub open spec fn runtime_handles() -> Seq<(Seq<char>, NominalPolicyView)> {
    let audited = |name: Seq<char>, send: bool, sync: bool, reason: Seq<char>|
        (name, NominalPolicyView::Audited { send, sync, reason });
    seq![
        audited("std::io::Stdout"@, true, true, "stdout formatting is reentrant"@),
        audited("std::io::File"@, true, false, "file streams require exclusive ownership"@),
        audited("std::net::TcpStream"@, true, false, "socket state requires exclusive ownership"@),
        audited(
            "std::net::TcpListener"@,
            true,
            false,
            "listener state requires exclusive ownership"@,
        ),
        audited("std::net::UdpSocket"@, true, false, "socket state requires exclusive ownership"@),
        audited("std::term::Terminal"@, false, false, "terminal sessions are thread-affine"@),
        audited("std::term::UiSessionGuard"@, false, false, "terminal guards are thread-affine"@),
        audited("std::audio::WavWriter"@, true, false, "WAV writers require exclusive ownership"@),
        audited(
            "std::audio::AudioOut"@,
            false,
            false,
            "live audio devices are engine-thread-affine"@,
        ),
    ]
}

/// The identities of the first `n` runtime handle types by their names.
pub open spec fn runtime_identities(space: u64, n: nat) -> Seq<(Seq<char>, CanonicalNominalId)>
    decreases n,
{
    if n == 0 {
        Seq::empty()
    } else {
        with_entry(
            runtime_identities(space, (n - 1) as nat),
            runtime_handles()[n - 1].0,
            CanonicalNominalId::issued(space, n - 1),
        )
    }
}

/// The compiler-known one-argument containers in the order of their
/// registration.
pub open spec fn known_containers() -> Seq<(Seq<char>, ApplicationPolicyView)> {
    seq![
        (THREAD_HANDLE_TYPE@, ApplicationPolicyView::JoinHandle),
        (ARC_TYPE_CONSTRUCTOR@, ApplicationPolicyView::Arc),
        (MUTEX_TYPE_CONSTRUCTOR@, ApplicationPolicyView::Mutex),
        (
            MUTEX_GUARD_TYPE_CONSTRUCTOR@,
            ApplicationPolicyView::Deny { arity: 1, reason: GUARD_REASON@ },
        ),
        (SPSC_SENDER_TYPE_CONSTRUCTOR@, ApplicationPolicyView::Sender),
        (SPSC_RECEIVER_TYPE_CONSTRUCTOR@, ApplicationPolicyView::Receiver),
    ]
}

/// What is known before any type was met: the containers and the runtime
/// handles, registered in a fresh identity space.
pub open spec fn initial_typing(resolver: ResolverContext, space: u64) -> SafetyTypingView {
    let defs = DefinitionsView {
        structs: resolver.struct_types@,
        enums: resolver.enum_types@,
    };
    SafetyTypingView {
        defs,
        symbols: resolver.symbols@,
        registry: RegistryView {
            defs,
            space,
            constructors: known_containers(),
            nominals: runtime_handles(),
        },
        runtime: runtime_identities(space, runtime_handles().len()),
        structural: Seq::empty(),
        ids: ContainerIds {
            join_handle: CanonicalConstructorId::issued(space, 0),
            arc: CanonicalConstructorId::issued(space, 1),
            mutex: CanonicalConstructorId::issued(space, 2),
            mutex_guard: CanonicalConstructorId::issued(space, 3),
            spsc_sender: CanonicalConstructorId::issued(space, 4),
            spsc_receiver: CanonicalConstructorId::issued(space, 5),
        },
    }
}

fn runtime_handle_types() -> (handles: Vec<RuntimeHandle>)
    ensures
        handles@.len() == runtime_handles().len(),
        forall|i: int|
            0 <= i < handles@.len() ==> runtime_handles()[i] == (
                (#[trigger] handles@[i]).name@,
                (NominalPolicyView::Audited {
                    send: handles@[i].send,
                    sync: handles@[i].sync,
                    reason: handles@[i].reason@,
                }),
            ),
{
    vec![
        RuntimeHandle {
            name: "std::io::Stdout",
            send: true,
            sync: true,
            reason: "stdout formatting is reentrant",
        },
        RuntimeHandle {
            name: "std::io::File",
            send: true,
            sync: false,
            reason: "file streams require exclusive ownership",
        },
        RuntimeHandle {
            name: "std::net::TcpStream",
            send: true,
            sync: false,
            reason: "socket state requires exclusive ownership",
        },
        RuntimeHandle {
            name: "std::net::TcpListener",
            send: true,
            sync: false,
            reason: "listener state requires exclusive ownership",
        },
        RuntimeHandle {
            name: "std::net::UdpSocket",
            send: true,
            sync: false,
            reason: "socket state requires exclusive ownership",
        },
        RuntimeHandle {
            name: "std::term::Terminal",
            send: false,
            sync: false,
            reason: "terminal sessions are thread-affine",
        },
        RuntimeHandle {
            name: "std::term::UiSessionGuard",
            send: false,
            sync: false,
            reason: "terminal guards are thread-affine",
        },
        RuntimeHandle {
            name: "std::audio::WavWriter",
            send: true,
            sync: false,
            reason: "WAV writers require exclusive ownership",
        },
        RuntimeHandle {
            name: "std::audio::AudioOut",
            send: false,
            sync: false,
            reason: "live audio devices are engine-thread-affine",
        },
    ]
}

impl<'a> SafetyTyping<'a> {
    /// Registers the containers and the runtime handles.
    pub fn new(resolver: &'a ResolverContext, spaces: &mut IdentitySpaces) -> (typing: SafetyTyping<
        'a,
    >)
        ensures
            typing@ == initial_typing(*resolver, old(spaces).upcoming()),
            typing.resolver == resolver,
            final(spaces).upcoming() == (if old(spaces).upcoming() == u64::MAX {
                0
            } else {
                old(spaces).upcoming() + 1
            }),
    {
        let mut registry = ThreadSafetyRegistry::new(
            &resolver.struct_types,
            &resolver.enum_types,
            spaces,
        );
        let ghost space = old(spaces).upcoming();
        let ghost defs = registry@.defs;
        let join_handle = registry.register_constructor(
            THREAD_HANDLE_TYPE,
            CanonicalApplicationPolicy::JoinHandle,
        );
        let arc = registry.register_constructor(
            ARC_TYPE_CONSTRUCTOR,
            CanonicalApplicationPolicy::Arc,
        );
        let mutex = registry.register_constructor(
            MUTEX_TYPE_CONSTRUCTOR,
            CanonicalApplicationPolicy::Mutex,
        );
        let mutex_guard = registry.register_constructor(
            MUTEX_GUARD_TYPE_CONSTRUCTOR,
            CanonicalApplicationPolicy::Deny { arity: 1, reason: GUARD_REASON.to_owned() },
        );
        let spsc_sender = registry.register_constructor(
            SPSC_SENDER_TYPE_CONSTRUCTOR,
            CanonicalApplicationPolicy::Sender,
        );
        let spsc_receiver = registry.register_constructor(
            SPSC_RECEIVER_TYPE_CONSTRUCTOR,
            CanonicalApplicationPolicy::Receiver,
        );
        assert(registry@.constructors =~= known_containers());
        let handles = runtime_handle_types();
        let mut runtime_nominals: NameMap<CanonicalNominalId> = NameMap::new();
        let mut i: usize = 0;
        while i < handles.len()
            invariant
                i <= handles.len(),
                handles@.len() == runtime_handles().len(),
                forall|j: int|
                    0 <= j < handles@.len() ==> runtime_handles()[j] == (
                        (#[trigger] handles@[j]).name@,
                        (NominalPolicyView::Audited {
                            send: handles@[j].send,
                            sync: handles@[j].sync,
                            reason: handles@[j].reason@,
                        }),
                    ),
                registry@.defs == defs,
                registry@.space == space,
                registry@.constructors == known_containers(),
                registry@.nominals == runtime_handles().take(i as int),
                runtime_nominals@ == runtime_identities(space, i as nat),
            decreases handles.len() - i,
        {
            let handle = &handles[i];
            let id = registry.register_nominal(
                handle.name,
                NominalThreadSafetyPolicy::Audited {
                    send: handle.send,
                    sync: handle.sync,
                    reason: handle.reason.to_owned(),
                },
            );
            runtime_nominals.insert(handle.name.to_owned(), id);
            i += 1;
            assert(registry@.nominals =~= runtime_handles().take(i as int));
        }
        assert(registry@.nominals =~= runtime_handles());
        SafetyTyping {
            resolver,
            registry,
            runtime_nominals,
            structural_nominals: NameMap::new(),
            ids: ContainerIds {
                join_handle,
                arc,
                mutex,
                mutex_guard,
                spsc_sender,
                spsc_receiver,
            },
        }
    }
}

} // verus!
