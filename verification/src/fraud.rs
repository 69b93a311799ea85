//! The fraud-claim decision: a claim backed by a proof that the committed
//! root does cover the leaf is itself invalid; a claim the committed root
//! cannot account for is substantiated and yields a fraud event.

use vstd::prelude::*;

use crate::bytes::clone_bytes;
use crate::merkle::{inclusion_holds, verify_merkle_proof};
use crate::state::{views_of, RollupProgramError, RollupState, ValidFraudProof};

verus! {

/// Decides a fraud claim against one commitment. If `leaf` is provably
/// included under the commitment's root, the state transition was correct
/// and the claim is rejected with `InvalidFraudProofClaim`; otherwise the
/// claim is accepted and a fraud event carrying the commitment's validator,
/// root, batch number and timestamp is returned for external publication.
/// Never mutates the commitment. Dispute-window enforcement is left to the
/// caller, which may reject late claims before invoking this decision.
pub fn process_fraud_proof(
    rollup_state: &RollupState,
    leaf: Vec<u8>,
    fraud_proof: Vec<Vec<u8>>,
) -> (result: Result<ValidFraudProof, RollupProgramError>)
    ensures
        result is Err <==> inclusion_holds(leaf@, views_of(fraud_proof@), rollup_state.root@),
        result is Err ==> result->Err_0 == RollupProgramError::InvalidFraudProofClaim,
        result is Ok ==> ({
            let ev = result->Ok_0;
            &&& ev.validator@ == rollup_state.validator@
            &&& ev.root@ == rollup_state.root@
            &&& ev.batch_number == rollup_state.batch_number
            &&& ev.timestamp == rollup_state.timestamp
        }),
{
    let is_valid = verify_merkle_proof(leaf, fraud_proof, clone_bytes(&rollup_state.root));
    if is_valid {
        Err(RollupProgramError::InvalidFraudProofClaim)
    } else {
        Ok(
            ValidFraudProof {
                validator: clone_bytes(&rollup_state.validator),
                root: clone_bytes(&rollup_state.root),
                batch_number: rollup_state.batch_number,
                timestamp: rollup_state.timestamp,
            },
        )
    }
}

} // verus!
