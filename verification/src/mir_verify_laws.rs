//! What the verifier's silence guarantees, in terms of the operands that stand in
//! the instructions.

use vstd::prelude::*;

use crate::ast::BinaryOp;
use crate::mir::{LocalId, LocalView, MirInstView, MirModule, MirValue, RvalueView};
use crate::mir_verify::{
    carried_rvalue, fields_locals_from, initializes, inst_locals, inst_reads, is_dropped_at,
    kept_from, module_errors, no_errors_means_well_formed, rvalue_locals, targets,
    valid_declaration, valid_type, value_locals, values_locals_from, well_formed_block,
    well_formed_foreign, well_formed_function, well_formed_inst, write_only_targets,
};
use crate::table::value_of;
use crate::thread::{
    PRIVATE_SCOPED_THREAD_HANDLE_TYPE, SCOPED_THREAD_HANDLE_TYPE, THREAD_HANDLE_TYPE,
};
use crate::types::{
    type_option_view, TypeView, ARC_TYPE_CONSTRUCTOR, MUTEX_GUARD_TYPE_CONSTRUCTOR,
    MUTEX_TYPE_CONSTRUCTOR, SPSC_RECEIVER_TYPE_CONSTRUCTOR, SPSC_SENDER_TYPE_CONSTRUCTOR,
};

verus! {

/// Whether a local stands in a field of the rvalue, as an operand or as the place
/// for an output.
pub open spec fn stands_in(id: LocalId, value: RvalueView) -> bool {
    match value {
        RvalueView::Move(local) => local == id,
        RvalueView::Deref { base, .. } => base == id,
        RvalueView::Binary { lhs, rhs, .. } => {
            lhs == MirValue::Local(id)
                || rhs == MirValue::Local(id)
        },
        RvalueView::Cast { value, .. } => value == MirValue::Local(id),
        RvalueView::Call { args, .. } => args.contains(MirValue::Local(id)),
        RvalueView::MakeClosure { captures, .. } => exists|k: int|
            0 <= k < captures.len() && (#[trigger] captures[k]).local == id,
        RvalueView::MakeBorrowedClosure { captures, .. } => exists|k: int|
            0 <= k < captures.len() && (#[trigger] captures[k]).local == id,
        RvalueView::CallIndirect { callee, args, .. } => {
            callee == id
                || args.contains(MirValue::Local(id))
        },
        RvalueView::CallIndirectShared { callee, args, .. } => {
            callee == id
                || args.contains(MirValue::Local(id))
        },
        RvalueView::CallIndirectMut { callee, args, .. } => {
            callee == id
                || args.contains(MirValue::Local(id))
        },
        RvalueView::ThreadSpawnUnit { task, out_handle } => task == id || out_handle == id,
        RvalueView::ThreadSpawnResult { task, out_handle, .. } => task == id || out_handle == id,
        RvalueView::ThreadJoinUnit { handle } => handle == id,
        RvalueView::ThreadJoinResult { handle, out_result, .. } => {
            handle == id
                || out_result == id
        },
        RvalueView::ThreadDetachUnit { handle } => handle == id,
        RvalueView::ThreadHandleFromRaw { raw } => raw == id,
        RvalueView::ThreadHandleIntoRaw { handle } => handle == id,
        RvalueView::ThreadErrorFromStatus { status } => status == MirValue::Local(id),
        RvalueView::ThreadScopeCreate { out_scope } => out_scope == id,
        RvalueView::ThreadScopeExit { scope } => scope == id,
        RvalueView::ThreadScopeFromRaw { raw } => raw == id,
        RvalueView::ThreadScopeDrain { scope } => scope == id,
        RvalueView::ScopedThreadSpawnUnit { scope, task, out_handle } => {
            scope == id
                || task == id
                || out_handle == id
        },
        RvalueView::ScopedThreadSpawnResult { scope, task, out_handle, .. } => {
            scope == id
                || task == id
                || out_handle == id
        },
        RvalueView::ScopedThreadJoinUnit { handle } => handle == id,
        RvalueView::ScopedThreadJoinResult { handle, out_result, .. } => {
            handle == id
                || out_result == id
        },
        RvalueView::ScopedThreadHandleFromRaw { raw, .. } => raw == id,
        RvalueView::ScopedThreadHandleIntoRaw { handle, .. } => handle == id,
        RvalueView::StructLit { field_values, .. } => exists|k: int|
            0 <= k < field_values.len() && (#[trigger] field_values[k]).1 == MirValue::Local(id),
        RvalueView::FieldAccess { base, .. } => base == id,
        RvalueView::FieldRef { base, .. } => base == id,
        RvalueView::Ref { base, .. } => base == id,
        RvalueView::ArrayLit { elements, .. } => elements.contains(MirValue::Local(id)),
        RvalueView::ArrayIndex { base, index, .. } => base == id || index == MirValue::Local(id),
        RvalueView::ArrayLen { base } => base == id,
        RvalueView::VecWithCapacity { capacity, .. } => capacity == MirValue::Local(id),
        RvalueView::VecPush { vec, value, .. } => vec == id || value == MirValue::Local(id),
        RvalueView::VecPop { vec, .. } => vec == id,
        RvalueView::VecLen { vec } => vec == id,
        RvalueView::VecIndex { vec, index, .. } => vec == id || index == MirValue::Local(id),
        RvalueView::VecIndexRef { vec, index, .. } => vec == id || index == MirValue::Local(id),
        RvalueView::MapWithCapacity { capacity, .. } => capacity == MirValue::Local(id),
        RvalueView::MapAdd { map, key, value, .. } => {
            map == id
                || key == MirValue::Local(id)
                || value == MirValue::Local(id)
        },
        RvalueView::MapUpdate { map, key, value, .. } => {
            map == id
                || key == MirValue::Local(id)
                || value == MirValue::Local(id)
        },
        RvalueView::MapDel { map, key, .. } => map == id || key == MirValue::Local(id),
        RvalueView::MapGet { map, key, .. } => map == id || key == MirValue::Local(id),
        RvalueView::MapHas { map, key, .. } => map == id || key == MirValue::Local(id),
        RvalueView::MapKeys { map, .. } => map == id,
        RvalueView::MapVals { map, .. } => map == id,
        RvalueView::FileOpen { path, .. } => path == MirValue::Local(id),
        RvalueView::FileReadToString { file } => file == id,
        RvalueView::FileWriteString { file, contents } => {
            file == id
                || contents == MirValue::Local(id)
        },
        RvalueView::FileClose { file } => file == id,
        RvalueView::StringLen { base } => base == id,
        RvalueView::StringConcat { base, value } => base == id || value == MirValue::Local(id),
        RvalueView::StringSlice { base, start, len } => {
            base == id
                || start == MirValue::Local(id)
                || len == MirValue::Local(id)
        },
        RvalueView::StringTrim { base } => base == id,
        RvalueView::StringSplit { base, sep } => base == id || sep == MirValue::Local(id),
        RvalueView::StringStartsWith { base, needle } => {
            base == id
                || needle == MirValue::Local(id)
        },
        RvalueView::StringEndsWith { base, needle } => {
            base == id
                || needle == MirValue::Local(id)
        },
        RvalueView::StringClone { base } => base == id,
        RvalueView::OwnNew { value, .. } => value == MirValue::Local(id),
        RvalueView::OwnIntoRaw { base, .. } => base == id,
        RvalueView::OwnFromRaw { ptr, .. } => ptr == MirValue::Local(id),
        RvalueView::SharedNew { value, .. } => value == MirValue::Local(id),
        RvalueView::SharedClone { base, .. } => base == id,
        RvalueView::ArcNew { value, .. } => value == MirValue::Local(id),
        RvalueView::ArcClone { base, .. } => base == id,
        RvalueView::ArcBorrow { base, .. } => base == id,
        RvalueView::MutexNew { value, .. } => value == MirValue::Local(id),
        RvalueView::MutexLock { base, .. } => base == id,
        RvalueView::MutexTryLock { base, .. } => base == id,
        RvalueView::MutexGuardIsAcquired { guard, .. } => guard == id,
        RvalueView::MutexGuardBorrow { guard, .. } => guard == id,
        RvalueView::SpscChannelNew { capacity, out_receiver, .. } => {
            capacity == MirValue::Local(id)
                || out_receiver == id
        },
        RvalueView::SpscTrySend { sender, value, out_unsent, .. } => {
            sender == id
                || value == id
                || out_unsent == id
        },
        RvalueView::SpscTryRecv { receiver, out_value, .. } => receiver == id || out_value == id,
        RvalueView::AtomicNew { value, .. } => value == MirValue::Local(id),
        RvalueView::AtomicLoad { atomic, .. } => atomic == id,
        RvalueView::AtomicStore { atomic, value, .. } => {
            atomic == id
                || value == MirValue::Local(id)
        },
        RvalueView::AtomicRmw { atomic, value, .. } => {
            atomic == id
                || value == MirValue::Local(id)
        },
        RvalueView::AtomicCompareExchange { atomic, expected, desired, .. } => {
            atomic == id
                || expected == MirValue::Local(id)
                || desired == MirValue::Local(id)
        },
        RvalueView::EnumConstruct { payload, .. } => payload == Some(MirValue::Local(id)),
        RvalueView::EnumTag { base } => base == id,
        RvalueView::EnumPayload { base, .. } => base == id,
        _ => false,
    }
}

/// Whether a local is only a place that the rvalue puts an output in.
pub open spec fn is_output_of(id: LocalId, value: RvalueView) -> bool {
    match value {
        RvalueView::ThreadSpawnUnit { out_handle, .. }
        | RvalueView::ThreadSpawnResult { out_handle, .. }
        | RvalueView::ScopedThreadSpawnUnit { out_handle, .. }
        | RvalueView::ScopedThreadSpawnResult { out_handle, .. } => out_handle == id,
        RvalueView::ThreadJoinResult { out_result, .. }
        | RvalueView::ScopedThreadJoinResult { out_result, .. } => out_result == id,
        RvalueView::ThreadScopeCreate { out_scope } => out_scope == id,
        RvalueView::SpscChannelNew { out_receiver, .. } => out_receiver == id,
        RvalueView::SpscTrySend { out_unsent, .. } => out_unsent == id,
        RvalueView::SpscTryRecv { out_value, .. } => out_value == id,
        _ => false,
    }
}

/// Whether a local stands in an instruction.
pub open spec fn stands_in_inst(id: LocalId, inst: MirInstView) -> bool {
    match inst {
        MirInstView::Assign { local, value } => local == id || stands_in(id, value),
        MirInstView::AssignField { base, value, .. } => base == id || stands_in(id, value),
        MirInstView::AssignIndex { base, index, value } => base == id || index == MirValue::Local(id)
            || stands_in(id, value),
        MirInstView::Return(value) => value == Some(MirValue::Local(id)),
        MirInstView::If { cond, .. } => cond == MirValue::Local(id),
        MirInstView::Drop(local)
        | MirInstView::DropThreadHandle(local)
        | MirInstView::DropThreadScope(local)
        | MirInstView::DrainThreadScope(local)
        | MirInstView::DropScopedThreadHandle(local) => local == id,
        MirInstView::Goto(_) | MirInstView::Nop => false,
    }
}

/// Whether an instruction needs the value of a local. An assignment does not need
/// the old value of its target, and a drop is no use.
pub open spec fn needs_value(id: LocalId, inst: MirInstView) -> bool {
    let of = |value: RvalueView| stands_in(id, value) && !is_output_of(id, value);
    match inst {
        MirInstView::Assign { value, .. } => of(value),
        MirInstView::AssignField { base, value, .. } => base == id || of(value),
        MirInstView::AssignIndex { base, index, value } => base == id || index == MirValue::Local(id)
            || of(value),
        MirInstView::Drop(_) => false,
        _ => stands_in_inst(id, inst),
    }
}

/// Whether a local has a value again after an instruction, whatever it was before.
pub open spec fn gets_value(id: LocalId, inst: MirInstView) -> bool {
    match inst {
        MirInstView::Assign { local, value } => local == id || is_output_of(id, value),
        MirInstView::AssignField { value, .. } => is_output_of(id, value),
        MirInstView::AssignIndex { value, .. } => is_output_of(id, value),
        _ => false,
    }
}

proof fn operand_lists_are_collected(values: Seq<MirValue>, i: int, id: LocalId)
    requires
        0 <= i,
    ensures
        values_locals_from(values, i).contains(id) <==> exists|k: int|
            i <= k < values.len() && #[trigger] values[k] == MirValue::Local(id),
    decreases values.len() - i,
{
    if i < values.len() {
        operand_lists_are_collected(values, i + 1, id);
        sums_hold_both(value_locals(values[i]), values_locals_from(values, i + 1), id);
        values_are_collected(values[i], id);
    }
}

proof fn field_lists_are_collected(fields: Seq<(Seq<char>, MirValue)>, i: int, id: LocalId)
    requires
        0 <= i,
    ensures
        fields_locals_from(fields, i).contains(id) <==> exists|k: int|
            i <= k < fields.len() && (#[trigger] fields[k]).1 == MirValue::Local(id),
    decreases fields.len() - i,
{
    if i < fields.len() {
        field_lists_are_collected(fields, i + 1, id);
        sums_hold_both(value_locals(fields[i].1), fields_locals_from(fields, i + 1), id);
        values_are_collected(fields[i].1, id);
    }
}

proof fn sums_hold_both(first: Seq<LocalId>, second: Seq<LocalId>, id: LocalId)
    ensures
        (first + second).contains(id) <==> first.contains(id) || second.contains(id),
{
    if first.contains(id) {
        let k = choose|k: int| 0 <= k < first.len() && first[k] == id;
        assert((first + second)[k] == id);
    }
    if second.contains(id) {
        let k = choose|k: int| 0 <= k < second.len() && second[k] == id;
        assert((first + second)[first.len() + k] == id);
    }
}

proof fn values_are_collected(value: MirValue, id: LocalId)
    ensures
        value_locals(value).contains(id) <==> value == MirValue::Local(id),
{
    match value {
        MirValue::Local(local) => {
            assert(seq![local].contains(id) <==> local == id) by {
                assert(seq![local][0] == local);
            }
        },
        _ => {},
    }
}

proof fn single_locals_are_collected()
    ensures
        forall|local: LocalId, id: LocalId| #[trigger] seq![local].contains(id) <==> local == id,
{
    assert forall|local: LocalId, id: LocalId| #[trigger] seq![local].contains(id) <==> local
        == id by {
        assert(seq![local][0] == local);
    }
}

proof fn all_sums_hold_both()
    ensures
        forall|first: Seq<LocalId>, second: Seq<LocalId>, id: LocalId| #[trigger]
            (first + second).contains(id) <==> first.contains(id) || second.contains(id),
{
    assert forall|first: Seq<LocalId>, second: Seq<LocalId>, id: LocalId| #[trigger]
        (first + second).contains(id) <==> first.contains(id) || second.contains(id) by {
        sums_hold_both(first, second, id);
    }
}

/// The verifier looks at every local that stands in an rvalue, and at no other.
pub proof fn every_operand_is_looked_at(value: RvalueView, id: LocalId)
    ensures
        rvalue_locals(value).contains(id) <==> stands_in(id, value),
{
    single_locals_are_collected();
    all_sums_hold_both();
    assert forall|v: MirValue| #[trigger] value_locals(v).contains(id) <==> v == MirValue::Local(
        id,
    ) by {
        values_are_collected(v, id);
    }
    match value {
        RvalueView::Call { args, .. } => {
            operand_lists_are_collected(args, 0, id);
        },
        RvalueView::CallIndirect { args, .. } => {
            operand_lists_are_collected(args, 0, id);
        },
        RvalueView::CallIndirectShared { args, .. } => {
            operand_lists_are_collected(args, 0, id);
        },
        RvalueView::CallIndirectMut { args, .. } => {
            operand_lists_are_collected(args, 0, id);
        },
        RvalueView::ArrayLit { elements, .. } => {
            operand_lists_are_collected(elements, 0, id);
        },
        RvalueView::StructLit { field_values, .. } => {
            field_lists_are_collected(field_values, 0, id);
        },
        RvalueView::MakeClosure { captures, .. } => {
            let ids = rvalue_locals(value);
            if stands_in(id, value) {
                let k = choose|k: int|
                    0 <= k < captures.len() && (#[trigger] captures[k]).local == id;
                assert(ids[k] == id);
            }
            if ids.contains(id) {
                let k = choose|k: int| 0 <= k < ids.len() && ids[k] == id;
                assert(captures[k].local == id);
            }
        },
        RvalueView::MakeBorrowedClosure { captures, .. } => {
            let ids = rvalue_locals(value);
            if stands_in(id, value) {
                let k = choose|k: int|
                    0 <= k < captures.len() && (#[trigger] captures[k]).local == id;
                assert(ids[k] == id);
            }
            if ids.contains(id) {
                let k = choose|k: int| 0 <= k < ids.len() && ids[k] == id;
                assert(captures[k].local == id);
            }
        },
        _ => {},
    }
}

/// The verifier takes exactly the outputs of an rvalue for places that need no
/// value before.
pub proof fn every_output_is_known(value: RvalueView, id: LocalId)
    ensures
        write_only_targets(value).contains(id) <==> is_output_of(id, value),
{
    single_locals_are_collected();
}

proof fn kept_locals_are_the_others(
    ids: Seq<LocalId>,
    excluded: Seq<LocalId>,
    i: int,
    id: LocalId,
)
    requires
        0 <= i,
    ensures
        kept_from(ids, excluded, i).contains(id) <==> !excluded.contains(id) && exists|k: int|
            i <= k < ids.len() && #[trigger] ids[k] == id,
    decreases ids.len() - i,
{
    if i < ids.len() {
        kept_locals_are_the_others(ids, excluded, i + 1, id);
        let rest = kept_from(ids, excluded, i + 1);
        sums_hold_both(seq![ids[i]], rest, id);
        single_locals_are_collected();
    }
}

/// The verifier takes exactly the locals whose value an instruction needs for
/// reads, and all that stand in it for uses.
pub proof fn every_use_is_looked_at(inst: MirInstView, id: LocalId)
    ensures
        inst_locals(inst).contains(id) <==> stands_in_inst(id, inst),
        inst_reads(inst).contains(id) <==> needs_value(id, inst),
{
    single_locals_are_collected();
    all_sums_hold_both();
    assert forall|v: MirValue| #[trigger] value_locals(v).contains(id) <==> v == MirValue::Local(
        id,
    ) by {
        values_are_collected(v, id);
    }
    match carried_rvalue(inst) {
        Some(value) => {
            every_operand_is_looked_at(value, id);
            every_output_is_known(value, id);
            kept_locals_are_the_others(rvalue_locals(value), write_only_targets(value), 0, id);
            let ids = rvalue_locals(value);
            assert(ids.contains(id) <==> exists|k: int|
                0 <= k < ids.len() && #[trigger] ids[k] == id);
        },
        None => {},
    }
}

/// A module without errors uses only locals that exist, and no value of a local
/// that was dropped before in the same block and has got no new value since.
pub proof fn accepted_modules_use_live_locals(
    module: MirModule,
    function: int,
    block: int,
    i: int,
    id: LocalId,
)
    requires
        module_errors(module).len() == 0,
        0 <= function < module.functions@.len(),
        0 <= block < module.functions@[function]@.blocks.len(),
        0 <= i < module.functions@[function]@.blocks[block].len(),
    ensures
        ({
            let func = module.functions@[function]@;
            let insts = func.blocks[block];
            &&& stands_in_inst(id, insts[i]) ==> id.0 < func.locals.len()
            &&& needs_value(id, insts[i]) ==> forall|d: int|
                0 <= d < i && #[trigger] insts[d] == MirInstView::Drop(id) ==> exists|k: int|
                    d < k < i && gets_value(id, #[trigger] insts[k])
        }),
{
    no_errors_means_well_formed(module);
    let func = module.functions@[function]@;
    let insts = func.blocks[block];
    assert(well_formed_function(func, module.enum_types@));
    assert(well_formed_block(func, module.enum_types@, insts));
    assert(well_formed_inst(func, module.enum_types@, insts, i));
    every_use_is_looked_at(insts[i], id);
    if stands_in_inst(id, insts[i]) {
        let ids = inst_locals(insts[i]);
        let k = choose|k: int| 0 <= k < ids.len() && ids[k] == id;
        assert(ids[k].0 < func.locals.len());
    }
    if needs_value(id, insts[i]) {
        let ids = inst_reads(insts[i]);
        let r = choose|r: int| 0 <= r < ids.len() && ids[r] == id;
        assert(!is_dropped_at(insts, ids[r], i));
        assert forall|d: int| 0 <= d < i && #[trigger] insts[d] == MirInstView::Drop(
            id,
        ) implies exists|k: int| d < k < i && gets_value(id, #[trigger] insts[k]) by {
            let k = choose|k: int| d < k < i && initializes(#[trigger] insts[k], id);
            assert(d < k < i && initializes(insts[k], id));
            match carried_rvalue(insts[k]) {
                Some(value) => every_output_is_known(value, id),
                None => {},
            }
            assert(gets_value(id, insts[k]));
        }
    }
}

/// A module without errors has control leave every block at its last instruction
/// and nowhere else, for blocks that exist; its logical operators are control
/// flow, and the variants that it names exist.
pub proof fn accepted_modules_stay_inside(
    module: MirModule,
    function: int,
    block: int,
    i: int,
)
    requires
        module_errors(module).len() == 0,
        0 <= function < module.functions@.len(),
        0 <= block < module.functions@[function]@.blocks.len(),
        0 <= i < module.functions@[function]@.blocks[block].len(),
    ensures
        ({
            let func = module.functions@[function]@;
            let insts = func.blocks[block];
            &&& insts.len() > 0
            &&& i == insts.len() - 1 <==> insts[i] is Return || insts[i] is Goto || insts[i] is If
            &&& insts[i] matches MirInstView::Goto(target) ==> target.0 < func.blocks.len()
            &&& insts[i] matches MirInstView::If { then_bb, else_bb, .. } ==> then_bb.0
                < func.blocks.len() && else_bb.0 < func.blocks.len()
            &&& insts[i] matches MirInstView::Assign { value, .. } ==> materializes(
                module,
                func.locals,
                value,
            )
            &&& insts[i] matches MirInstView::AssignField { value, .. } ==> materializes(
                module,
                func.locals,
                value,
            )
            &&& insts[i] matches MirInstView::AssignIndex { value, .. } ==> materializes(
                module,
                func.locals,
                value,
            )
        }),
{
    no_errors_means_well_formed(module);
    let func = module.functions@[function]@;
    let insts = func.blocks[block];
    assert(well_formed_function(func, module.enum_types@));
    assert(well_formed_block(func, module.enum_types@, insts));
    assert(well_formed_inst(func, module.enum_types@, insts, i));
    let ids = targets(insts[i]);
    match insts[i] {
        MirInstView::Goto(target) => {
            assert(ids[0] == target);
        },
        MirInstView::If { then_bb, else_bb, .. } => {
            assert(ids[0] == then_bb);
            assert(ids[1] == else_bb);
        },
        _ => {},
    }
}

/// Whether codegen can make an rvalue: it is no logical operator, and the variant
/// that it constructs or reads is declared, as far as its enum is known.
pub open spec fn materializes(
    module: MirModule,
    locals: Seq<LocalView>,
    value: RvalueView,
) -> bool {
    let declared = |name: Seq<char>, index: u32|
        value_of(module.enum_types@, name) matches Some(definition) ==> index
            < definition.variants@.len();
    match value {
        RvalueView::Binary { op, .. } => op != BinaryOp::And && op != BinaryOp::Or,
        RvalueView::EnumConstruct { enum_name, variant_index, .. } => declared(
            enum_name,
            variant_index,
        ),
        RvalueView::EnumPayload { base, variant_index, .. } => base.0 < locals.len() ==> {
            &&& locals[base.0 as int].ty matches Some(TypeView::Enum(name)) ==> declared(
                name,
                variant_index,
            )
            &&& locals[base.0 as int].ty matches Some(TypeView::Ref(inner, _)) ==> (
            *inner matches TypeView::Enum(name) ==> declared(name, variant_index))
        },
        _ => true,
    }
}

/// Whether a generic parameter is left somewhere in a type.
pub open spec fn has_parameter(ty: TypeView) -> bool
    decreases ty,
{
    match ty {
        TypeView::Param(_) => true,
        TypeView::App { args, .. } => any_has_parameter(args),
        TypeView::Ref(inner, _) => has_parameter(*inner),
        TypeView::Array(inner, _) => has_parameter(*inner),
        TypeView::Own(inner) => has_parameter(*inner),
        TypeView::RawPtr(inner) => has_parameter(*inner),
        TypeView::Shared(inner) => has_parameter(*inner),
        TypeView::Function { params, ret } => any_has_parameter(params) || has_parameter(*ret),
        TypeView::BorrowedFunction { params, ret, .. } => any_has_parameter(params)
            || has_parameter(*ret),
        TypeView::Tuple(elements) => any_has_parameter(elements),
        _ => false,
    }
}

pub open spec fn any_has_parameter(types: Seq<TypeView>) -> bool
    decreases types,
{
    exists|i: int| 0 <= i < types.len() && has_parameter(#[trigger] types[i])
}

proof fn valid_types_have_no_parameter(ty: TypeView)
    requires
        valid_type(ty),
    ensures
        !has_parameter(ty),
    decreases ty,
{
    match ty {
        TypeView::App { args, .. } => valid_lists_have_no_parameter(args),
        TypeView::Ref(inner, _) => valid_types_have_no_parameter(*inner),
        TypeView::Array(inner, _) => valid_types_have_no_parameter(*inner),
        TypeView::Own(inner) => valid_types_have_no_parameter(*inner),
        TypeView::RawPtr(inner) => valid_types_have_no_parameter(*inner),
        TypeView::Shared(inner) => valid_types_have_no_parameter(*inner),
        TypeView::Function { params, ret } => {
            valid_lists_have_no_parameter(params);
            valid_types_have_no_parameter(*ret);
        },
        TypeView::BorrowedFunction { params, ret, .. } => {
            valid_lists_have_no_parameter(params);
            valid_types_have_no_parameter(*ret);
        },
        TypeView::Tuple(elements) => valid_lists_have_no_parameter(elements),
        _ => {},
    }
}

proof fn valid_lists_have_no_parameter(types: Seq<TypeView>)
    requires
        forall|i: int| 0 <= i < types.len() ==> valid_type(#[trigger] types[i]),
    ensures
        !any_has_parameter(types),
    decreases types,
{
    assert forall|i: int| 0 <= i < types.len() implies !has_parameter(#[trigger] types[i]) by {
        valid_types_have_no_parameter(types[i]);
    }
}

/// A declared type that the verifier accepts has no generic parameter left in it,
/// and where it is an application, it applies one of the runtime's own
/// constructors to one argument.
pub proof fn accepted_types_are_concrete(ty: TypeView)
    requires
        valid_type(ty),
    ensures
        !has_parameter(ty),
        ty matches TypeView::App { base, args } ==> args.len() == 1 && (base
            == ARC_TYPE_CONSTRUCTOR@ || base == MUTEX_TYPE_CONSTRUCTOR@ || base
            == MUTEX_GUARD_TYPE_CONSTRUCTOR@ || base == SPSC_SENDER_TYPE_CONSTRUCTOR@ || base
            == SPSC_RECEIVER_TYPE_CONSTRUCTOR@ || base == THREAD_HANDLE_TYPE@ || base
            == SCOPED_THREAD_HANDLE_TYPE@ || base == PRIVATE_SCOPED_THREAD_HANDLE_TYPE@),
{
    valid_types_have_no_parameter(ty);
}

/// A module without errors declares no type that codegen could not materialize:
/// not for a result, a local, a field, a payload or a foreign parameter.
pub proof fn accepted_modules_declare_concrete_types(module: MirModule)
    requires
        module_errors(module).len() == 0,
    ensures
        forall|f: int, l: int|
            0 <= f < module.functions@.len() && 0 <= l < module.functions@[f]@.locals.len() ==> ((
            #[trigger] module.functions@[f]@.locals[l]).ty matches Some(ty) ==> !has_parameter(ty)),
        forall|f: int|
            0 <= f < module.functions@.len() ==> ((
            #[trigger] module.functions@[f])@.ret_type matches Some(ty) ==> !has_parameter(ty)),
        forall|s: int, l: int|
            0 <= s < module.struct_types@.len() && 0 <= l
                < module.struct_types@[s].1.fields@.len() ==> !has_parameter(
                (#[trigger] module.struct_types@[s].1.fields@[l]).1@,
            ),
        forall|e: int, v: int|
            0 <= e < module.enum_types@.len() && 0 <= v
                < module.enum_types@[e].1.variants@.len() ==> (type_option_view(
                (#[trigger] module.enum_types@[e].1.variants@[v]).payload,
            ) matches Some(ty) ==> !has_parameter(ty)),
        forall|x: int, p: int|
            0 <= x < module.extern_functions@.len() && 0 <= p
                < module.extern_functions@[x].params@.len() ==> !has_parameter(
                (#[trigger] module.extern_functions@[x].params@[p])@,
            ),
{
    no_errors_means_well_formed(module);
    assert forall|f: int, l: int|
        0 <= f < module.functions@.len() && 0 <= l
            < module.functions@[f]@.locals.len() implies ((
    #[trigger] module.functions@[f]@.locals[l]).ty matches Some(ty) ==> !has_parameter(ty)) by {
        assert(well_formed_function(module.functions@[f]@, module.enum_types@));
        let ty = module.functions@[f]@.locals[l].ty;
        assert(valid_declaration(ty));
        if ty is Some {
            valid_types_have_no_parameter(ty->0);
        }
    }
    assert forall|f: int| 0 <= f < module.functions@.len() implies ((
    #[trigger] module.functions@[f])@.ret_type matches Some(ty) ==> !has_parameter(ty)) by {
        assert(well_formed_function(module.functions@[f]@, module.enum_types@));
        let ty = module.functions@[f]@.ret_type;
        if ty is Some {
            valid_types_have_no_parameter(ty->0);
        }
    }
    assert forall|s: int, l: int|
        0 <= s < module.struct_types@.len() && 0 <= l
            < module.struct_types@[s].1.fields@.len() implies !has_parameter(
        (#[trigger] module.struct_types@[s].1.fields@[l]).1@,
    ) by {
        valid_types_have_no_parameter(module.struct_types@[s].1.fields@[l].1@);
    }
    assert forall|e: int, v: int|
        0 <= e < module.enum_types@.len() && 0 <= v
            < module.enum_types@[e].1.variants@.len() implies (type_option_view(
        (#[trigger] module.enum_types@[e].1.variants@[v]).payload,
    ) matches Some(ty) ==> !has_parameter(ty)) by {
        let ty = type_option_view(module.enum_types@[e].1.variants@[v].payload);
        assert(valid_declaration(ty));
        if ty is Some {
            valid_types_have_no_parameter(ty->0);
        }
    }
    assert forall|x: int, p: int|
        0 <= x < module.extern_functions@.len() && 0 <= p
            < module.extern_functions@[x].params@.len() implies !has_parameter(
        (#[trigger] module.extern_functions@[x].params@[p])@,
    ) by {
        assert(well_formed_foreign(module.extern_functions@[x]));
        valid_types_have_no_parameter(module.extern_functions@[x].params@[p]@);
    }
}

} // verus!
