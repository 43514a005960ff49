//! Which thread-safety rule a type is judged by.

use vstd::prelude::*;

use crate::lower::safety::{
    container, initial_typing, runtime_handles, runtime_identities, typed, typed_definition,
    typed_fields, typed_list, typed_variants, Registered, SafetyNames, SafetyTypingView,
};
use crate::resolver::{ResolvedSymbol, ResolverContext};
use crate::table::{tables_read_back_what_was_stored, unique_keys, value_of};
use crate::text::{occurs_at, replaced, replaced_from};
use crate::thread::THREAD_HANDLE_TYPE;
use crate::thread_safety::{
    is_safe, issued_identities_name_their_place, ApplicationPolicyView, CanonicalNominalId,
    NominalPolicyView, ThreadSafetyRequirement, ThreadSafetyTypeView,
};
use crate::thread_safety_reach::nominal_types_are_judged_by_their_policy;
use crate::types::{
    EnumVariant, Type, TypeView, ARC_TYPE_CONSTRUCTOR, MUTEX_GUARD_TYPE_CONSTRUCTOR,
    MUTEX_TYPE_CONSTRUCTOR, SPSC_RECEIVER_TYPE_CONSTRUCTOR, SPSC_SENDER_TYPE_CONSTRUCTOR,
};

verus! {

proof fn slashes_are_replaced(text: Seq<char>, i: int)
    requires
        0 <= i < text.len(),
    ensures
        replaced_from(text, "/"@, "::"@, i) == (if text[i] == '/' {
            seq![':', ':']
        } else {
            seq![text[i]]
        }) + replaced_from(text, "/"@, "::"@, i + 1),
{
    reveal_strlit("/");
    reveal_strlit("::");
    assert("::"@ =~= seq![':', ':']);
    assert(occurs_at(text, "/"@, i) == (text[i] == '/')) by {
        assert(text.subrange(i, i + 1)[0] == text[i]);
        if text[i] == '/' {
            assert(text.subrange(i, i + 1) =~= "/"@);
        }
    }
}

proof fn sync_path()
    ensures
        replaced("std/sync"@, "/"@, "::"@) == "std::sync"@,
{
    reveal_strlit("std/sync");
    reveal_strlit("std::sync");
    let text = "std/sync"@;
    assert(replaced_from(text, "/"@, "::"@, 8) =~= Seq::<char>::empty());
    slashes_are_replaced(text, 7);
    assert(replaced_from(text, "/"@, "::"@, 7) =~= seq!['c']);
    slashes_are_replaced(text, 6);
    assert(replaced_from(text, "/"@, "::"@, 6) =~= seq!['n', 'c']);
    slashes_are_replaced(text, 5);
    assert(replaced_from(text, "/"@, "::"@, 5) =~= seq!['y', 'n', 'c']);
    slashes_are_replaced(text, 4);
    assert(replaced_from(text, "/"@, "::"@, 4) =~= seq!['s', 'y', 'n', 'c']);
    slashes_are_replaced(text, 3);
    assert(replaced_from(text, "/"@, "::"@, 3) =~= seq![':', ':', 's', 'y', 'n', 'c']);
    slashes_are_replaced(text, 2);
    assert(replaced_from(text, "/"@, "::"@, 2) =~= seq!['d', ':', ':', 's', 'y', 'n', 'c']);
    slashes_are_replaced(text, 1);
    assert(replaced_from(text, "/"@, "::"@, 1) =~= seq!['t', 'd', ':', ':', 's', 'y', 'n', 'c']);
    slashes_are_replaced(text, 0);
    assert(replaced_from(text, "/"@, "::"@, 0) =~= seq!['s', 't', 'd', ':', ':', 's', 'y', 'n', 'c']);
    assert(replaced(text, "/"@, "::"@) =~= "std::sync"@);
}

proof fn thread_path()
    ensures
        replaced("std/thread"@, "/"@, "::"@) == "std::thread"@,
{
    reveal_strlit("std/thread");
    reveal_strlit("std::thread");
    let text = "std/thread"@;
    assert(replaced_from(text, "/"@, "::"@, 10) =~= Seq::<char>::empty());
    slashes_are_replaced(text, 9);
    assert(replaced_from(text, "/"@, "::"@, 9) =~= seq!['d']);
    slashes_are_replaced(text, 8);
    assert(replaced_from(text, "/"@, "::"@, 8) =~= seq!['a', 'd']);
    slashes_are_replaced(text, 7);
    assert(replaced_from(text, "/"@, "::"@, 7) =~= seq!['e', 'a', 'd']);
    slashes_are_replaced(text, 6);
    assert(replaced_from(text, "/"@, "::"@, 6) =~= seq!['r', 'e', 'a', 'd']);
    slashes_are_replaced(text, 5);
    assert(replaced_from(text, "/"@, "::"@, 5) =~= seq!['h', 'r', 'e', 'a', 'd']);
    slashes_are_replaced(text, 4);
    assert(replaced_from(text, "/"@, "::"@, 4) =~= seq!['t', 'h', 'r', 'e', 'a', 'd']);
    slashes_are_replaced(text, 3);
    assert(replaced_from(text, "/"@, "::"@, 3) =~= seq![':', ':', 't', 'h', 'r', 'e', 'a', 'd']);
    slashes_are_replaced(text, 2);
    assert(replaced_from(text, "/"@, "::"@, 2) =~= seq!['d', ':', ':', 't', 'h', 'r', 'e', 'a', 'd']);
    slashes_are_replaced(text, 1);
    assert(replaced_from(text, "/"@, "::"@, 1) =~= seq!['t', 'd', ':', ':', 't', 'h', 'r', 'e', 'a', 'd']);
    slashes_are_replaced(text, 0);
    assert(replaced_from(text, "/"@, "::"@, 0) =~= seq!['s', 't', 'd', ':', ':', 't', 'h', 'r', 'e', 'a', 'd']);
    assert(replaced(text, "/"@, "::"@) =~= "std::thread"@);
}

proof fn channel_path()
    ensures
        replaced("std/sync/spsc"@, "/"@, "::"@) == "std::sync::spsc"@,
{
    reveal_strlit("std/sync/spsc");
    reveal_strlit("std::sync::spsc");
    let text = "std/sync/spsc"@;
    assert(replaced_from(text, "/"@, "::"@, 13) =~= Seq::<char>::empty());
    slashes_are_replaced(text, 12);
    assert(replaced_from(text, "/"@, "::"@, 12) =~= seq!['c']);
    slashes_are_replaced(text, 11);
    assert(replaced_from(text, "/"@, "::"@, 11) =~= seq!['s', 'c']);
    slashes_are_replaced(text, 10);
    assert(replaced_from(text, "/"@, "::"@, 10) =~= seq!['p', 's', 'c']);
    slashes_are_replaced(text, 9);
    assert(replaced_from(text, "/"@, "::"@, 9) =~= seq!['s', 'p', 's', 'c']);
    slashes_are_replaced(text, 8);
    assert(replaced_from(text, "/"@, "::"@, 8) =~= seq![':', ':', 's', 'p', 's', 'c']);
    slashes_are_replaced(text, 7);
    assert(replaced_from(text, "/"@, "::"@, 7) =~= seq!['c', ':', ':', 's', 'p', 's', 'c']);
    slashes_are_replaced(text, 6);
    assert(replaced_from(text, "/"@, "::"@, 6) =~= seq!['n', 'c', ':', ':', 's', 'p', 's', 'c']);
    slashes_are_replaced(text, 5);
    assert(replaced_from(text, "/"@, "::"@, 5) =~= seq!['y', 'n', 'c', ':', ':', 's', 'p', 's', 'c']);
    slashes_are_replaced(text, 4);
    assert(replaced_from(text, "/"@, "::"@, 4) =~= seq!['s', 'y', 'n', 'c', ':', ':', 's', 'p', 's', 'c']);
    slashes_are_replaced(text, 3);
    assert(replaced_from(text, "/"@, "::"@, 3) =~= seq![':', ':', 's', 'y', 'n', 'c', ':', ':', 's', 'p', 's', 'c']);
    slashes_are_replaced(text, 2);
    assert(replaced_from(text, "/"@, "::"@, 2) =~= seq!['d', ':', ':', 's', 'y', 'n', 'c', ':', ':', 's', 'p', 's', 'c']);
    slashes_are_replaced(text, 1);
    assert(replaced_from(text, "/"@, "::"@, 1) =~= seq!['t', 'd', ':', ':', 's', 'y', 'n', 'c', ':', ':', 's', 'p', 's', 'c']);
    slashes_are_replaced(text, 0);
    assert(replaced_from(text, "/"@, "::"@, 0) =~= seq!['s', 't', 'd', ':', ':', 's', 'y', 'n', 'c', ':', ':', 's', 'p', 's', 'c']);
    assert(replaced(text, "/"@, "::"@) =~= "std::sync::spsc"@);
}

proof fn qualified_paths()
    ensures
        replaced("std/sync"@, "/"@, "::"@) + "::"@ + "Arc"@ == ARC_TYPE_CONSTRUCTOR@,
        replaced("std/sync"@, "/"@, "::"@) + "::"@ + "Mutex"@ == MUTEX_TYPE_CONSTRUCTOR@,
        replaced("std/sync"@, "/"@, "::"@) + "::"@ + "MutexGuard"@ == MUTEX_GUARD_TYPE_CONSTRUCTOR@,
        replaced("std/thread"@, "/"@, "::"@) + "::"@ + "JoinHandle"@ == THREAD_HANDLE_TYPE@,
        replaced("std/sync/spsc"@, "/"@, "::"@) + "::"@ + "Sender"@ == SPSC_SENDER_TYPE_CONSTRUCTOR@,
        replaced("std/sync/spsc"@, "/"@, "::"@) + "::"@ + "Receiver"@ == SPSC_RECEIVER_TYPE_CONSTRUCTOR@,
{
    reveal_strlit("/");
    reveal_strlit("::");
    reveal_strlit("Arc");
    reveal_strlit("JoinHandle");
    reveal_strlit("Mutex");
    reveal_strlit("MutexGuard");
    reveal_strlit("Receiver");
    reveal_strlit("Sender");
    reveal_strlit("std/sync");
    reveal_strlit("std/sync/spsc");
    reveal_strlit("std/thread");
    reveal_strlit("std::sync");
    reveal_strlit("std::sync::Arc");
    reveal_strlit("std::sync::Mutex");
    reveal_strlit("std::sync::MutexGuard");
    reveal_strlit("std::sync::spsc");
    reveal_strlit("std::sync::spsc::Receiver");
    reveal_strlit("std::sync::spsc::Sender");
    reveal_strlit("std::thread");
    reveal_strlit("std::thread::JoinHandle");
    sync_path();
    thread_path();
    channel_path();
    assert("std::sync"@ + "::"@ + "Arc"@ =~= ARC_TYPE_CONSTRUCTOR@);
    assert("std::sync"@ + "::"@ + "Mutex"@ =~= MUTEX_TYPE_CONSTRUCTOR@);
    assert("std::sync"@ + "::"@ + "MutexGuard"@ =~= MUTEX_GUARD_TYPE_CONSTRUCTOR@);
    assert("std::thread"@ + "::"@ + "JoinHandle"@ =~= THREAD_HANDLE_TYPE@);
    assert("std::sync::spsc"@ + "::"@ + "Sender"@ =~= SPSC_SENDER_TYPE_CONSTRUCTOR@);
    assert("std::sync::spsc"@ + "::"@ + "Receiver"@ =~= SPSC_RECEIVER_TYPE_CONSTRUCTOR@);
}

/// Whether a name was imported for a struct, and is not spelled like the path of a
/// compiler-known container.
pub open spec fn imported(
    names: SafetyNames,
    name: Seq<char>,
    module: Seq<char>,
    symbol: Seq<char>,
) -> bool {
    &&& value_of(names.symbols, name) matches Some(ResolvedSymbol::Struct(m, s)) && m@ == module
        && s@ == symbol
    &&& name != ARC_TYPE_CONSTRUCTOR@
    &&& name != MUTEX_TYPE_CONSTRUCTOR@
    &&& name != MUTEX_GUARD_TYPE_CONSTRUCTOR@
    &&& name != THREAD_HANDLE_TYPE@
    &&& name != SPSC_SENDER_TYPE_CONSTRUCTOR@
    &&& name != SPSC_RECEIVER_TYPE_CONSTRUCTOR@
}

/// A compiler-known container is recognized by the path of its declaration, whether
/// the source spells the path or imports the name, and gets its own identity.
pub proof fn containers_are_recognized_by_declaration(
    names: SafetyNames,
    base: Seq<char>,
    inner: TypeView,
)
    ensures
        ({
            let ty = TypeView::App { base, args: seq![inner] };
            &&& value_of(names.symbols, base) is None && base == ARC_TYPE_CONSTRUCTOR@ ==> container(
                names,
                ty,
            ) == Some(names.ids.arc)
            &&& value_of(names.symbols, base) is None && base == MUTEX_TYPE_CONSTRUCTOR@ ==> container(
                names,
                ty,
            ) == Some(names.ids.mutex)
            &&& value_of(names.symbols, base) is None && base == MUTEX_GUARD_TYPE_CONSTRUCTOR@ ==> container(
                names,
                ty,
            ) == Some(names.ids.mutex_guard)
            &&& value_of(names.symbols, base) is None && base == THREAD_HANDLE_TYPE@ ==> container(
                names,
                ty,
            ) == Some(names.ids.join_handle)
            &&& value_of(names.symbols, base) is None && base == SPSC_SENDER_TYPE_CONSTRUCTOR@ ==> container(
                names,
                ty,
            ) == Some(names.ids.spsc_sender)
            &&& value_of(names.symbols, base) is None && base == SPSC_RECEIVER_TYPE_CONSTRUCTOR@ ==> container(
                names,
                ty,
            ) == Some(names.ids.spsc_receiver)
            &&& imported(names, base, "std/sync"@, "Arc"@) ==> container(names, ty) == Some(
                names.ids.arc,
            )
            &&& imported(names, base, "std/sync"@, "Mutex"@) ==> container(names, ty) == Some(
                names.ids.mutex,
            )
            &&& imported(names, base, "std/sync"@, "MutexGuard"@) ==> container(names, ty) == Some(
                names.ids.mutex_guard,
            )
            &&& imported(names, base, "std/thread"@, "JoinHandle"@) ==> container(names, ty) == Some(
                names.ids.join_handle,
            )
            &&& imported(names, base, "std/sync/spsc"@, "Sender"@) ==> container(names, ty) == Some(
                names.ids.spsc_sender,
            )
            &&& imported(names, base, "std/sync/spsc"@, "Receiver"@) ==> container(names, ty) == Some(
                names.ids.spsc_receiver,
            )
        }),
{
    qualified_paths();
    reveal_strlit("/");
    reveal_strlit("::");
    reveal_strlit("Arc");
    reveal_strlit("JoinHandle");
    reveal_strlit("Mutex");
    reveal_strlit("MutexGuard");
    reveal_strlit("Receiver");
    reveal_strlit("Sender");
    reveal_strlit("std/sync");
    reveal_strlit("std/sync/spsc");
    reveal_strlit("std/thread");
    reveal_strlit("std::sync");
    reveal_strlit("std::sync::Arc");
    reveal_strlit("std::sync::Mutex");
    reveal_strlit("std::sync::MutexGuard");
    reveal_strlit("std::sync::spsc");
    reveal_strlit("std::sync::spsc::Receiver");
    reveal_strlit("std::sync::spsc::Sender");
    reveal_strlit("std::thread");
    reveal_strlit("std::thread::JoinHandle");
    assert(ARC_TYPE_CONSTRUCTOR@.len() == 14 && ARC_TYPE_CONSTRUCTOR@[5] == 's');
    assert("Arc"@.len() == 3);
    assert(MUTEX_TYPE_CONSTRUCTOR@.len() == 16 && MUTEX_TYPE_CONSTRUCTOR@[5] == 's');
    assert("Mutex"@.len() == 5);
    assert(MUTEX_GUARD_TYPE_CONSTRUCTOR@.len() == 21 && MUTEX_GUARD_TYPE_CONSTRUCTOR@[5] == 's');
    assert("MutexGuard"@.len() == 10);
    assert(THREAD_HANDLE_TYPE@.len() == 23 && THREAD_HANDLE_TYPE@[5] == 't');
    assert("JoinHandle"@.len() == 10);
    assert(SPSC_SENDER_TYPE_CONSTRUCTOR@.len() == 23 && SPSC_SENDER_TYPE_CONSTRUCTOR@[5] == 's');
    assert("Sender"@.len() == 6);
    assert(SPSC_RECEIVER_TYPE_CONSTRUCTOR@.len() == 25 && SPSC_RECEIVER_TYPE_CONSTRUCTOR@[5] == 's');
    assert("Receiver"@.len() == 8);
    assert("std/sync"@.len() == 8);
    assert("std/thread"@.len() == 10);
    assert("std/sync/spsc"@.len() == 13);
}

/// Typing starts from containers that have the rules of what they are called, and
/// tells them apart.
pub proof fn containers_start_with_their_rules(resolver: ResolverContext, space: u64)
    ensures
        ({
            let start = initial_typing(resolver, space);
            let reg = start.registry;
            &&& reg.constructor(start.ids.arc) == Some(
                (ARC_TYPE_CONSTRUCTOR@, ApplicationPolicyView::Arc),
            )
            &&& reg.constructor(start.ids.mutex) == Some(
                (MUTEX_TYPE_CONSTRUCTOR@, ApplicationPolicyView::Mutex),
            )
            &&& reg.constructor(start.ids.mutex_guard) matches Some((name, policy)) && name
                == MUTEX_GUARD_TYPE_CONSTRUCTOR@ && policy is Deny
            &&& reg.constructor(start.ids.join_handle) == Some(
                (THREAD_HANDLE_TYPE@, ApplicationPolicyView::JoinHandle),
            )
            &&& reg.constructor(start.ids.spsc_sender) == Some(
                (SPSC_SENDER_TYPE_CONSTRUCTOR@, ApplicationPolicyView::Sender),
            )
            &&& reg.constructor(start.ids.spsc_receiver) == Some(
                (SPSC_RECEIVER_TYPE_CONSTRUCTOR@, ApplicationPolicyView::Receiver),
            )
        }),
{
    issued_identities_name_their_place(space, 0);
    issued_identities_name_their_place(space, 1);
    issued_identities_name_their_place(space, 2);
    issued_identities_name_their_place(space, 3);
    issued_identities_name_their_place(space, 4);
    issued_identities_name_their_place(space, 5);
}

/// Typing registers definitions and touches nothing else: containers, runtime
/// handles and names stay as they are.
pub proof fn typing_keeps_what_is_known(typing: SafetyTypingView, ty: TypeView)
    ensures
        ({
            let after = typing.after_typing(ty);
            &&& after.ids == typing.ids
            &&& after.runtime == typing.runtime
            &&& after.symbols == typing.symbols
            &&& after.defs == typing.defs
            &&& after.registry.space == typing.registry.space
            &&& after.registry.constructors == typing.registry.constructors
        }),
{
}

/// A type that is made of others gets its safety type from theirs, in their order.
pub proof fn composite_types_are_typed_by_their_parts(
    typing: SafetyTypingView,
    inner: TypeView,
    len: usize,
    base: Seq<char>,
)
    ensures
        typing.safety_type(TypeView::Own(Box::new(inner))) == ThreadSafetyTypeView::Own(
            Box::new(typing.safety_type(inner)),
        ),
        typing.safety_type(TypeView::Array(Box::new(inner), len)) == (ThreadSafetyTypeView::Array {
            element: Box::new(typing.safety_type(inner)),
            len,
        }),
        typing.after_typing(TypeView::Own(Box::new(inner))) == typing.after_typing(inner),
        container(typing.names(), TypeView::App { base, args: seq![inner] }) matches Some(id)
            ==> typing.safety_type(TypeView::App { base, args: seq![inner] })
            == (ThreadSafetyTypeView::Application {
            constructor: id,
            args: seq![typing.safety_type(inner)],
        }),
{
    reveal_with_fuel(typed, 3);
    reveal_with_fuel(typed_list, 3);
    let args = seq![inner];
    let names = typing.names();
    let (part, after) = typed(names, typing.done(), inner, Seq::empty());
    let (rest, last) = typed_list(names, after, args, Seq::empty(), 1);
    assert(rest =~= Seq::empty());
    assert(typed_list(names, typing.done(), args, Seq::empty(), 0).0 == seq![part] + rest);
    assert(seq![part] + rest =~= seq![part]);
}

/// The safety type of each element of a list stands at the element's place; it is
/// given once the ones before it are known.
pub proof fn every_element_is_typed(
    names: SafetyNames,
    done: Registered,
    types: Seq<TypeView>,
    visiting: Seq<(bool, Seq<char>)>,
    i: int,
)
    requires
        0 <= i <= types.len(),
    ensures
        typed_list(names, done, types, visiting, i).0.len() == types.len() - i,
        i < types.len() ==> typed_list(names, done, types, visiting, i).0[0] == typed(
            names,
            done,
            types[i],
            visiting,
        ).0,
    decreases types.len() - i,
{
    if i < types.len() {
        let (first, after) = typed(names, done, types[i], visiting);
        every_element_is_typed(names, after, types, visiting, i + 1);
        let (rest, last) = typed_list(names, after, types, visiting, i + 1);
        assert(typed_list(names, done, types, visiting, i).0 == seq![first] + rest);
    }
}

proof fn every_field_is_typed(
    names: SafetyNames,
    done: Registered,
    fields: Seq<(String, Type)>,
    visiting: Seq<(bool, Seq<char>)>,
    i: int,
)
    requires
        0 <= i <= fields.len(),
    ensures
        ({
            let parts = typed_fields(names, done, fields, visiting, i).0;
            &&& parts.len() == fields.len() - i
            &&& forall|k: int|
                0 <= k < parts.len() ==> (#[trigger] parts[k]).0 == fields[i + k].0@ && exists|
                    before: Registered,
                | parts[k].1 == (#[trigger] typed(names, before, fields[i + k].1@, visiting)).0
        }),
    decreases fields.len() - i,
{
    if i < fields.len() {
        let (first, after) = typed(names, done, fields[i].1@, visiting);
        every_field_is_typed(names, after, fields, visiting, i + 1);
        let rest = typed_fields(names, after, fields, visiting, i + 1).0;
        let parts = typed_fields(names, done, fields, visiting, i).0;
        assert(parts == seq![(fields[i].0@, first)] + rest);
        assert forall|k: int| 0 <= k < parts.len() implies (#[trigger] parts[k]).0
            == fields[i + k].0@ && exists|before: Registered|
            parts[k].1 == (#[trigger] typed(names, before, fields[i + k].1@, visiting)).0 by {
            if k == 0 {
                assert(parts[0].1 == typed(names, done, fields[i].1@, visiting).0);
            } else {
                assert(parts[k] == rest[k - 1]);
                assert(fields[(i + 1) + (k - 1)] == fields[i + k]);
                let before = choose|before: Registered|
                    rest[k - 1].1 == (#[trigger] typed(
                        names,
                        before,
                        fields[(i + 1) + (k - 1)].1@,
                        visiting,
                    )).0;
                assert(parts[k].1 == typed(names, before, fields[i + k].1@, visiting).0);
            }
        }
    }
}

proof fn every_payload_is_typed(
    names: SafetyNames,
    done: Registered,
    variants: Seq<EnumVariant>,
    visiting: Seq<(bool, Seq<char>)>,
    i: int,
)
    requires
        0 <= i <= variants.len(),
    ensures
        ({
            let parts = typed_variants(names, done, variants, visiting, i).0;
            &&& parts.len() == variants.len() - i
            &&& forall|k: int|
                0 <= k < parts.len() ==> (#[trigger] parts[k]).0 == variants[i + k].name@
                    && parts[k].1 is Some == variants[i + k].payload is Some
        }),
    decreases variants.len() - i,
{
    if i < variants.len() {
        let (first, after) = match variants[i].payload {
            Some(payload) => {
                let (part, after) = typed(names, done, payload@, visiting);
                (Some(part), after)
            },
            None => (None, done),
        };
        every_payload_is_typed(names, after, variants, visiting, i + 1);
        let rest = typed_variants(names, after, variants, visiting, i + 1).0;
        let parts = typed_variants(names, done, variants, visiting, i).0;
        assert(parts == seq![(variants[i].name@, first)] + rest);
        assert forall|k: int| 0 <= k < parts.len() implies (#[trigger] parts[k]).0
            == variants[i + k].name@ && parts[k].1 is Some == variants[i + k].payload is Some by {
            if k > 0 {
                assert(parts[k] == rest[k - 1]);
                assert(variants[(i + 1) + (k - 1)] == variants[i + k]);
            }
        }
    }
}

/// A struct or an enum that is met for the first time is registered under its name
/// with a part for each of its fields or variants: none is left out when the type is
/// judged.
pub proof fn definitions_are_registered_with_all_parts(
    typing: SafetyTypingView,
    name: Seq<char>,
    is_enum: bool,
)
    requires
        value_of(typing.structural, name) is None,
        !is_enum ==> crate::lower::safety::runtime_identity(typing.names(), name) is None,
        typing.registry.nominals.len() < u32::MAX,
    ensures
        ({
            let ty = if is_enum {
                TypeView::Enum(name)
            } else {
                TypeView::Named(name)
            };
            let reg = typing.after_typing(ty).registry;
            &&& !is_enum ==> (value_of(typing.defs.structs, name) matches Some(definition) ==> {
                &&& typing.safety_type(ty) matches ThreadSafetyTypeView::Nominal(id)
                &&& reg.nominals.last().0 == name
                &&& reg.nominals.last().1 matches NominalPolicyView::MonomorphicStruct { fields }
                &&& fields.len() == definition.fields@.len()
                &&& forall|k: int|
                    0 <= k < fields.len() ==> (#[trigger] fields[k]).0 == definition.fields@[k].0@
            })
            &&& is_enum ==> (value_of(typing.defs.enums, name) matches Some(definition) ==> {
                &&& typing.safety_type(ty) matches ThreadSafetyTypeView::Nominal(id)
                &&& reg.nominals.last().0 == name
                &&& reg.nominals.last().1 matches NominalPolicyView::MonomorphicEnum { variants }
                &&& variants.len() == definition.variants@.len()
                &&& forall|k: int|
                    0 <= k < variants.len() ==> (#[trigger] variants[k]).0
                        == definition.variants@[k].name@ && variants[k].1 is Some
                        == definition.variants@[k].payload is Some
            })
        }),
{
    let names = typing.names();
    let none = Seq::<(bool, Seq<char>)>::empty();
    let inside = none.push((is_enum, name));
    let ty = if is_enum {
        TypeView::Enum(name)
    } else {
        TypeView::Named(name)
    };
    reveal_with_fuel(typed, 3);
    reveal_with_fuel(typed_definition, 3);
    assert(typed(names, typing.done(), ty, none) == typed_definition(
        names,
        typing.done(),
        ty,
        none,
        is_enum,
        name,
    ));
    if is_enum {
        if let Some(definition) = value_of(typing.defs.enums, name) {
            every_payload_is_typed(names, typing.done(), definition.variants@, inside, 0);
        }
    } else {
        if let Some(definition) = value_of(typing.defs.structs, name) {
            every_field_is_typed(names, typing.done(), definition.fields@, inside, 0);
        }
    }
}

/// Whether a runtime handle may be used by several threads at once.
pub open spec fn is_reentrant(name: Seq<char>) -> bool {
    name == "std::io::Stdout"@
}

/// Whether a runtime handle may be used by one thread at a time, whichever it is.
pub open spec fn is_exclusive(name: Seq<char>) -> bool {
    name == "std::io::File"@
        || name == "std::net::TcpStream"@
        || name == "std::net::TcpListener"@
        || name == "std::net::UdpSocket"@
        || name == "std::audio::WavWriter"@
}

/// Whether a runtime handle must stay with the thread that made it.
pub open spec fn is_thread_affine(name: Seq<char>) -> bool {
    name == "std::term::Terminal"@
        || name == "std::term::UiSessionGuard"@
        || name == "std::audio::AudioOut"@
}

proof fn handle_names_differ()
    ensures
        "std::io::Stdout"@.len() == 15 && "std::io::Stdout"@[5] == 'i' && "std::io::Stdout"@[10] == 't',
        "std::io::File"@.len() == 13 && "std::io::File"@[5] == 'i' && "std::io::File"@[10] == 'i',
        "std::net::TcpStream"@.len() == 19 && "std::net::TcpStream"@[5] == 'n' && "std::net::TcpStream"@[10] == 'T',
        "std::net::TcpListener"@.len() == 21 && "std::net::TcpListener"@[5] == 'n' && "std::net::TcpListener"@[10] == 'T',
        "std::net::UdpSocket"@.len() == 19 && "std::net::UdpSocket"@[5] == 'n' && "std::net::UdpSocket"@[10] == 'U',
        "std::term::Terminal"@.len() == 19 && "std::term::Terminal"@[5] == 't' && "std::term::Terminal"@[10] == ':',
        "std::term::UiSessionGuard"@.len() == 25 && "std::term::UiSessionGuard"@[5] == 't' && "std::term::UiSessionGuard"@[10] == ':',
        "std::audio::WavWriter"@.len() == 21 && "std::audio::WavWriter"@[5] == 'a' && "std::audio::WavWriter"@[10] == ':',
        "std::audio::AudioOut"@.len() == 20 && "std::audio::AudioOut"@[5] == 'a' && "std::audio::AudioOut"@[10] == ':',
{
    reveal_strlit("std::io::Stdout");
    reveal_strlit("std::io::File");
    reveal_strlit("std::net::TcpStream");
    reveal_strlit("std::net::TcpListener");
    reveal_strlit("std::net::UdpSocket");
    reveal_strlit("std::term::Terminal");
    reveal_strlit("std::term::UiSessionGuard");
    reveal_strlit("std::audio::WavWriter");
    reveal_strlit("std::audio::AudioOut");
}

proof fn handles_are_found(space: u64, n: nat, k: int)
    requires
        n <= runtime_handles().len(),
    ensures
        unique_keys(runtime_identities(space, n)),
        0 <= k < n ==> value_of(runtime_identities(space, n), runtime_handles()[k].0) == Some(
            CanonicalNominalId::issued(space, k),
        ),
    decreases n,
{
    if n > 0 {
        let before = runtime_identities(space, (n - 1) as nat);
        let name = runtime_handles()[n - 1].0;
        let id = CanonicalNominalId::issued(space, n - 1);
        handles_are_found(space, (n - 1) as nat, k);
        tables_read_back_what_was_stored(before, name, id, runtime_handles()[k].0);
        if 0 <= k < n - 1 {
            handle_names_differ();
            assert(runtime_handles()[k].0 != name);
        }
    }
}

proof fn handle_is_judged(resolver: ResolverContext, space: u64, k: int)
    requires
        0 <= k < runtime_handles().len(),
    ensures
        ({
            let start = initial_typing(resolver, space);
            let safety = start.safety_type(TypeView::Named(runtime_handles()[k].0));
            let policy = runtime_handles()[k].1;
            &&& is_safe(start.registry, safety, ThreadSafetyRequirement::Send)
                == policy->Audited_send
            &&& is_safe(start.registry, safety, ThreadSafetyRequirement::Sync)
                == policy->Audited_sync
        }),
{
    let start = initial_typing(resolver, space);
    let name = runtime_handles()[k].0;
    let id = CanonicalNominalId::issued(space, k);
    handles_are_found(space, runtime_handles().len(), k);
    issued_identities_name_their_place(space, k);
    assert(start.safety_type(TypeView::Named(name)) == ThreadSafetyTypeView::Nominal(id));
    assert(start.registry.nominal(id, start.registry.nominals.len()) == Some(
        runtime_handles()[k],
    ));
    assert(start.registry.is_closed());
    nominal_types_are_judged_by_their_policy(start.registry, id, ThreadSafetyRequirement::Send);
    nominal_types_are_judged_by_their_policy(start.registry, id, ThreadSafetyRequirement::Sync);
}

/// Runtime handles cross threads as their sessions allow: standard output may be
/// shared, files, sockets and writers may only be handed over, and terminals and
/// live audio devices stay with their thread.
pub proof fn runtime_handles_cross_as_their_sessions_allow(
    resolver: ResolverContext,
    space: u64,
    name: Seq<char>,
)
    ensures
        ({
            let start = initial_typing(resolver, space);
            let safety = start.safety_type(TypeView::Named(name));
            let send = is_safe(start.registry, safety, ThreadSafetyRequirement::Send);
            let sync = is_safe(start.registry, safety, ThreadSafetyRequirement::Sync);
            &&& is_reentrant(name) ==> send && sync
            &&& is_exclusive(name) ==> send && !sync
            &&& is_thread_affine(name) ==> !send && !sync
        }),
{
    if name == "std::io::Stdout"@ {
        handle_is_judged(resolver, space, 0);
    }
    if name == "std::io::File"@ {
        handle_is_judged(resolver, space, 1);
    }
    if name == "std::net::TcpStream"@ {
        handle_is_judged(resolver, space, 2);
    }
    if name == "std::net::TcpListener"@ {
        handle_is_judged(resolver, space, 3);
    }
    if name == "std::net::UdpSocket"@ {
        handle_is_judged(resolver, space, 4);
    }
    if name == "std::term::Terminal"@ {
        handle_is_judged(resolver, space, 5);
    }
    if name == "std::term::UiSessionGuard"@ {
        handle_is_judged(resolver, space, 6);
    }
    if name == "std::audio::WavWriter"@ {
        handle_is_judged(resolver, space, 7);
    }
    if name == "std::audio::AudioOut"@ {
        handle_is_judged(resolver, space, 8);
    }
}

} // verus!
