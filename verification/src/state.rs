//! Data model shared by the commitment chain and the fraud-proof verifier:
//! the per-batch commitment record, the error taxonomy and the fraud event.

use vstd::prelude::*;

verus! {

/// Upper bound on the number of prior roots a commitment retains.
pub const MAX_PREVIOUS_ROOTS: usize = 5;

/// Upper bound, in bytes, on a Merkle root kept in a commitment.
pub const MAX_ROOT_LEN: usize = 32;

/// One commitment per batch: the on-chain record binding a batch number to a
/// state root, its submitter, and a bounded history of prior roots.
#[derive(Clone, Debug)]
pub struct RollupState {
    /// Flag reserved for an external finalization policy; never set here.
    pub finalized: bool,
    /// Strictly sequential batch number, starting at 0.
    pub batch_number: u64,
    /// Submission time, taken from an external clock source.
    pub timestamp: i64,
    /// Identity of the validator who submitted the commitment.
    pub validator: Vec<u8>,
    /// Up to the last 5 prior roots, oldest first, oldest evicted first.
    pub previous_roots: Vec<Vec<u8>>,
    /// Merkle root of the batch's state.
    pub root: Vec<u8>,
}

/// The views of a sequence of byte vectors, element by element.
pub open spec fn views_of(vs: Seq<Vec<u8>>) -> Seq<Seq<u8>> {
    Seq::new(vs.len(), |i: int| vs[i]@)
}

impl RollupState {
    /// The retained root history as a sequence of byte sequences.
    pub open spec fn roots(self) -> Seq<Seq<u8>> {
        views_of(self.previous_roots@)
    }

    /// Structural well-formedness: the root is non-empty and bounded, and the
    /// history holds at most 5 roots, each non-empty and bounded.
    pub open spec fn wf(self) -> bool {
        &&& 1 <= self.root@.len() <= MAX_ROOT_LEN
        &&& self.roots().len() <= MAX_PREVIOUS_ROOTS
        &&& forall|i: int|
            0 <= i < self.roots().len() ==> 1 <= #[trigger] self.roots()[i].len() <= MAX_ROOT_LEN
    }
}

/// The root history of a successor commitment: the predecessor's history with
/// the predecessor's root appended, trimmed from the front to at most 5.
pub open spec fn next_previous_roots(prev_roots: Seq<Seq<u8>>, prev_root: Seq<u8>) -> Seq<
    Seq<u8>,
> {
    let pushed = prev_roots.push(prev_root);
    if pushed.len() > MAX_PREVIOUS_ROOTS {
        pushed.subrange(pushed.len() - MAX_PREVIOUS_ROOTS, pushed.len() as int)
    } else {
        pushed
    }
}

/// Error taxonomy of the core. `DisputePeriodEnded` and `NoPreviousState` are
/// reserved for an external dispute-window policy and a future revert
/// operation; no operation here produces them.
#[derive(Clone, Copy, Debug, PartialEq, Eq, Structural)]
pub enum RollupProgramError {
    InvalidBatchNumber,
    DisputePeriodEnded,
    NoPreviousState,
    InvalidFraudProofClaim,
}

/// Record of a substantiated fraud claim, copied from the referenced
/// commitment, for external publication and penalty logic.
#[derive(Clone, Debug)]
pub struct ValidFraudProof {
    pub validator: Vec<u8>,
    pub root: Vec<u8>,
    pub batch_number: u64,
    pub timestamp: i64,
}

} // verus!
