//! What the code that lowering emits does when it runs.

use vstd::prelude::*;

use crate::ast::BinaryOp;
use crate::lower::outline::{
    first_values_take_one_instruction, fresh_locals_get_their_own_number,
    instructions_stand_in_the_current_block,
};
use crate::lower::state::{LocalState, LowerState};
use crate::mir::{LocalId, MirInstView, MirValue, RvalueView};
use crate::types::TypeView;

verus! {

/// A point in the run of a function: where control is, what numbers the locals
/// hold (flags are one or zero), and which instructions were executed, apart from
/// those that only pass control on.
pub struct Run {
    pub block: int,
    pub at: int,
    pub values: Map<LocalId, int>,
    pub done: Seq<MirInstView>,
}

impl Run {
    /// The number that an operand stands for.
    pub open spec fn number(self, value: MirValue) -> int {
        match value {
            MirValue::Local(local) => self.values[local],
            MirValue::Int(number) => number as int,
            MirValue::Bool(flag) => if flag {
                1
            } else {
                0
            },
            _ => 0,
        }
    }

    /// The number that an assignment puts into its local. What the runtime answers
    /// is one of the `outcomes`.
    pub open spec fn computed(
        self,
        local: LocalId,
        value: RvalueView,
        outcomes: Map<LocalId, int>,
    ) -> int {
        match value {
            RvalueView::ConstInt(number) => number as int,
            RvalueView::ConstBool(flag) => if flag {
                1
            } else {
                0
            },
            RvalueView::Binary { op: BinaryOp::Eq, lhs, rhs } => if self.number(lhs) == self.number(
                rhs,
            ) {
                1
            } else {
                0
            },
            _ => outcomes[local],
        }
    }

    /// The next point. A run stands still where its block ends without passing
    /// control on.
    pub open spec fn step(
        self,
        blocks: Seq<Seq<MirInstView>>,
        outcomes: Map<LocalId, int>,
    ) -> Run {
        if self.block < 0 || self.block >= blocks.len() || self.at < 0 || self.at
            >= blocks[self.block].len() {
            self
        } else {
            let inst = blocks[self.block][self.at];
            match inst {
                MirInstView::Goto(target) => Run { block: target.0 as int, at: 0, ..self },
                MirInstView::If { cond, then_bb, else_bb } => Run {
                    block: if self.number(cond) != 0 {
                        then_bb.0 as int
                    } else {
                        else_bb.0 as int
                    },
                    at: 0,
                    ..self
                },
                MirInstView::Assign { local, value } => Run {
                    at: self.at + 1,
                    values: self.values.insert(local, self.computed(local, value, outcomes)),
                    done: self.done.push(inst),
                    ..self
                },
                _ => Run { at: self.at + 1, done: self.done.push(inst), ..self },
            }
        }
    }

    /// The point after some steps.
    pub open spec fn after(
        self,
        blocks: Seq<Seq<MirInstView>>,
        outcomes: Map<LocalId, int>,
        steps: nat,
    ) -> Run
        decreases steps,
    {
        if steps == 0 {
            self
        } else {
            self.after(blocks, outcomes, (steps - 1) as nat).step(blocks, outcomes)
        }
    }
}

impl LowerState {
    /// The point where the code that is emitted next begins.
    pub open spec fn upcoming(self, values: Map<LocalId, int>) -> Run {
        Run {
            block: self.current.0 as int,
            at: self.blocks[self.current.0 as int].len() as int,
            values,
            done: Seq::empty(),
        }
    }

    /// Whether the code that was emitted between two states, run with the given
    /// answers of the runtime, executes these instructions and comes to where
    /// emission goes on. The code from before is still there.
    pub open spec fn executes(
        self,
        later: LowerState,
        values: Map<LocalId, int>,
        outcomes: Map<LocalId, int>,
        done: Seq<MirInstView>,
    ) -> bool {
        &&& self.keeps_code(later)
        &&& exists|steps: nat|
            arrives(
                #[trigger] self.upcoming(values).after(later.blocks, outcomes, steps),
                later,
                done,
            )
    }

    /// Whether all earlier code stands as it was.
    pub open spec fn keeps_code(self, later: LowerState) -> bool {
        &&& self.blocks.len() <= later.blocks.len()
        &&& forall|j: int|
            0 <= j < self.blocks.len() && j != self.current.0 as int ==> later.blocks[j]
                == #[trigger] self.blocks[j]
        &&& self.blocks[self.current.0 as int].is_prefix_of(later.blocks[self.current.0 as int])
    }

    /// Whether control has come to where emission goes on, and `locals` more
    /// locals and `blocks` more blocks can be numbered.
    pub open spec fn has_room(self, locals: nat, blocks: nat) -> bool {
        &&& self.well_formed()
        &&& !self.terminated()
        &&& self.locals.len() + locals <= u32::MAX
        &&& self.blocks.len() + blocks <= u32::MAX
    }

    /// The local that gets the number `n` places after the next one.
    pub open spec fn local_ahead(self, n: int) -> LocalId {
        LocalId((self.next_local + n) as u32)
    }
}

/// Whether a run has come to where emission goes on.
pub open spec fn arrives(run: Run, later: LowerState, done: Seq<MirInstView>) -> bool {
    &&& run.block == later.current.0 as int
    &&& run.at == later.blocks[later.current.0 as int].len()
    &&& run.done == done
}

/// The instruction that puts a value into a local.
pub open spec fn puts(local: LocalId, value: RvalueView) -> MirInstView {
    MirInstView::Assign { local, value }
}

/// A local for a value of a type takes the next number.
pub(crate) proof fn typed_locals_take_the_next_number(state: LowerState, ty: TypeView)
    requires
        state.well_formed(),
        state.locals.len() < u32::MAX,
    ensures
        ({
            let after = state.with_typed_local(ty);
            &&& after.well_formed()
            &&& after.blocks == state.blocks
            &&& after.current == state.current
            &&& after.next_local == state.next_local + 1
            &&& after.locals.len() == state.locals.len() + 1
            &&& after.state_of(LocalId(state.next_local)) == Some(LocalState::Uninitialized)
            &&& after.local_type(LocalId(state.next_local)) == Some(ty)
            &&& after.states == state.states.push(LocalState::Uninitialized)
        }),
{
    reveal(LowerState::with_typed_local);
    fresh_locals_get_their_own_number(state, None);
}

pub(crate) proof fn handle_locals_take_the_next_number(state: LowerState, ty: TypeView)
    requires
        state.well_formed(),
        state.locals.len() < u32::MAX,
    ensures
        ({
            let after = state.with_thread_handle_local(ty);
            &&& after.well_formed()
            &&& after.blocks == state.blocks
            &&& after.current == state.current
            &&& after.next_local == state.next_local + 1
            &&& after.locals.len() == state.locals.len() + 1
            &&& after.state_of(LocalId(state.next_local)) == Some(LocalState::Uninitialized)
            &&& after.states == state.states.push(LocalState::Uninitialized)
        }),
{
    reveal(LowerState::with_thread_handle_local);
    typed_locals_take_the_next_number(state, ty);
}

/// A first value for a local, as far as runs are concerned.
pub(crate) proof fn values_are_put_once(state: LowerState, local: LocalId, value: RvalueView)
    requires
        state.well_formed(),
        state.state_of(local) != Some(LocalState::Initialized),
    ensures
        ({
            let after = state.assigned(local, value);
            &&& after.well_formed()
            &&& after.blocks == state.blocks.update(
                state.current.0 as int,
                state.blocks[state.current.0 as int].push(puts(local, value)),
            )
            &&& after.current == state.current
            &&& after.next_local == state.next_local
            &&& after.locals.len() == state.locals.len()
            &&& after.states.len() == state.states.len()
        }),
{
    first_values_take_one_instruction(state, local, value);
    instructions_stand_in_the_current_block(state, puts(local, value));
}

/// Any other instruction, as far as runs are concerned.
pub(crate) proof fn instructions_are_appended(state: LowerState, inst: MirInstView)
    requires
        state.well_formed(),
        !(inst is Assign),
        !(inst is AssignField),
        !(inst is AssignIndex),
    ensures
        ({
            let after = state.pushed(inst);
            &&& after.well_formed()
            &&& after.blocks == state.blocks.update(
                state.current.0 as int,
                state.blocks[state.current.0 as int].push(inst),
            )
            &&& after.current == state.current
            &&& after.next_local == state.next_local
            &&& after.locals == state.locals
            &&& after.states == state.states
        }),
{
    reveal(LowerState::pushed);
}

} // verus!
