//! Memory orderings and operand kinds of compiler-generated atomic operations.

use vstd::prelude::*;

verus! {

/// Memory ordering used by compiler-generated atomic operations.
///
/// The public atomic API emits [`AtomicOrdering::SeqCst`]. The weaker variants
/// exist for compiler-owned implementations such as `Arc<T>` and the bounded
/// SPSC channel, where the ordering proof lives with the lowering.
#[derive(Debug, Clone, Copy, PartialEq, Eq, Hash, Structural)]
pub enum AtomicOrdering {
    Relaxed,
    Acquire,
    Release,
    AcqRel,
    SeqCst,
}

impl AtomicOrdering {
    /// Whether an operation with this ordering synchronizes as a read.
    pub open spec fn acquires(self) -> bool {
        self is Acquire || self is AcqRel || self is SeqCst
    }

    /// Whether an operation with this ordering synchronizes as a write.
    pub open spec fn releases(self) -> bool {
        self is Release || self is AcqRel || self is SeqCst
    }

    /// Whether an operation with this ordering takes part in the single total
    /// order of sequentially consistent operations.
    pub open spec fn totally_ordered(self) -> bool {
        self is SeqCst
    }

    /// `self` gives every guarantee that `other` gives.
    pub open spec fn covers(self, other: AtomicOrdering) -> bool {
        &&& other.acquires() ==> self.acquires()
        &&& other.releases() ==> self.releases()
        &&& other.totally_ordered() ==> self.totally_ordered()
    }

    /// A load may not carry release semantics unless it is sequentially consistent.
    pub fn valid_for_load(self) -> (valid: bool)
        ensures
            valid == (self.releases() ==> self.totally_ordered()),
    {
        !matches!(self, AtomicOrdering::Release | AtomicOrdering::AcqRel)
    }

    /// A store may not carry acquire semantics unless it is sequentially consistent.
    pub fn valid_for_store(self) -> (valid: bool)
        ensures
            valid == (self.acquires() ==> self.totally_ordered()),
    {
        !matches!(self, AtomicOrdering::Acquire | AtomicOrdering::AcqRel)
    }

    /// The failure path of a compare-exchange is a load.
    pub fn valid_for_compare_exchange_failure(self) -> (valid: bool)
        ensures
            valid == (self.releases() ==> self.totally_ordered()),
    {
        !matches!(self, AtomicOrdering::Release | AtomicOrdering::AcqRel)
    }

    pub fn is_at_least_as_strong_as(self, other: AtomicOrdering) -> (stronger: bool)
        ensures
            stronger == self.covers(other),
    {
        match (self, other) {
            (AtomicOrdering::SeqCst, _) => true,
            (_, AtomicOrdering::Relaxed) => true,
            (AtomicOrdering::AcqRel, AtomicOrdering::Acquire) => true,
            (AtomicOrdering::AcqRel, AtomicOrdering::Release) => true,
            _ => self == other,
        }
    }
}

/// Atomic read-modify-write operations shared by public atomics, `Arc<T>`, and
/// channel lowering.
#[derive(Debug, Clone, Copy, PartialEq, Eq, Hash, Structural)]
pub enum AtomicRmwOp {
    Swap,
    Add,
    Sub,
    And,
    Or,
    Xor,
}

/// The scalar kinds that have an atomic counterpart.
#[derive(Debug, Clone, Copy, PartialEq, Eq, Hash, Structural)]
pub enum AtomicScalar {
    Bool,
    I32,
    U32,
    I64,
    U64,
    Usize,
}

impl AtomicScalar {
    /// The source-level name of the atomic type over this scalar.
    pub open spec fn name(self) -> Seq<char> {
        match self {
            AtomicScalar::Bool => "AtomicBool"@,
            AtomicScalar::I32 => "AtomicI32"@,
            AtomicScalar::U32 => "AtomicU32"@,
            AtomicScalar::I64 => "AtomicI64"@,
            AtomicScalar::U64 => "AtomicU64"@,
            AtomicScalar::Usize => "AtomicUsize"@,
        }
    }

    pub fn source_name(self) -> (name: &'static str)
        ensures
            name@ == self.name(),
    {
        match self {
            AtomicScalar::Bool => "AtomicBool",
            AtomicScalar::I32 => "AtomicI32",
            AtomicScalar::U32 => "AtomicU32",
            AtomicScalar::I64 => "AtomicI64",
            AtomicScalar::U64 => "AtomicU64",
            AtomicScalar::Usize => "AtomicUsize",
        }
    }

    pub fn is_integer(self) -> (integer: bool)
        ensures
            integer == !(self is Bool),
    {
        !matches!(self, AtomicScalar::Bool)
    }
}

/// Why a pair of compare-exchange orderings is rejected, if it is.
pub open spec fn compare_exchange_problem(
    success: AtomicOrdering,
    failure: AtomicOrdering,
) -> Option<Seq<char>> {
    if failure.releases() && !failure.totally_ordered() {
        Some("compare-exchange failure ordering cannot be Release or AcqRel"@)
    } else if !success.covers(failure) {
        Some("compare-exchange failure ordering cannot be stronger than success ordering"@)
    } else {
        None
    }
}

/// Validate the ordering pair for compare-exchange.
pub fn validate_compare_exchange_orderings(
    success: AtomicOrdering,
    failure: AtomicOrdering,
) -> (verdict: Result<(), &'static str>)
    ensures
        match verdict {
            Ok(()) => compare_exchange_problem(success, failure) is None,
            Err(message) => compare_exchange_problem(success, failure) == Some(message@),
        },
{
    if !failure.valid_for_compare_exchange_failure() {
        return Err("compare-exchange failure ordering cannot be Release or AcqRel");
    }
    if !success.is_at_least_as_strong_as(failure) {
        return Err("compare-exchange failure ordering cannot be stronger than success ordering");
    }
    Ok(())
}

/// The strength relation is a partial order with `SeqCst` on top and `Relaxed`
/// at the bottom.
pub proof fn strength_is_a_partial_order(
    a: AtomicOrdering,
    b: AtomicOrdering,
    c: AtomicOrdering,
)
    ensures
        a.covers(a),
        a.covers(b) && b.covers(a) ==> a == b,
        a.covers(b) && b.covers(c) ==> a.covers(c),
        AtomicOrdering::SeqCst.covers(a),
        a.covers(AtomicOrdering::Relaxed),
{
}

/// Strengthening the success ordering never makes a valid compare-exchange pair
/// invalid.
pub proof fn stronger_success_keeps_a_pair_valid(
    weaker: AtomicOrdering,
    stronger: AtomicOrdering,
    failure: AtomicOrdering,
)
    requires
        stronger.covers(weaker),
        compare_exchange_problem(weaker, failure) is None,
    ensures
        compare_exchange_problem(stronger, failure) is None,
{
}

} // verus!
