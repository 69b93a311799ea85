//! The commitment chain: appending a new batch commitment under the ordering
//! rule (batch numbers are contiguous from 0) and the bounded-history rule
//! (at most the 5 most recent prior roots are retained, oldest evicted first).

use vstd::prelude::*;

use crate::bytes::clone_bytes;
use crate::state::{RollupProgramError, RollupState, MAX_PREVIOUS_ROOTS, MAX_ROOT_LEN};
use crate::state::{next_previous_roots, views_of};

verus! {

/// Whether a commitment with the given batch number may follow the given
/// predecessor: with no predecessor only batch 0, otherwise exactly the
/// predecessor's batch number plus one.
pub open spec fn append_allowed(previous: Option<RollupState>, batch_number: u64) -> bool {
    match previous {
        None => batch_number == 0,
        Some(p) => p.batch_number == batch_number - 1,
    }
}

/// A well-ordered chain of commitments: batch numbers are contiguous from 0,
/// the first commitment has an empty root history, and each later
/// commitment's history is derived from its predecessor's exactly as a
/// successful append builds it.
pub open spec fn chain_ok(cs: Seq<RollupState>) -> bool {
    &&& forall|i: int| 0 <= i < cs.len() ==> (#[trigger] cs[i]).batch_number == i
    &&& cs.len() > 0 ==> cs[0].roots() == Seq::<Seq<u8>>::empty()
    &&& forall|i: int|
        1 <= i < cs.len() ==> (#[trigger] cs[i]).roots() == next_previous_roots(
            cs[i - 1].roots(),
            cs[i - 1].root@,
        )
}

/// The root of each commitment of the chain, in batch order.
pub open spec fn chain_roots(cs: Seq<RollupState>) -> Seq<Seq<u8>> {
    Seq::new(cs.len(), |i: int| cs[i].root@)
}

/// Ordering law: with no predecessor exactly batch number 0 is accepted;
/// with a predecessor exactly the predecessor's batch number plus one is
/// accepted, and any skipped or repeated number is refused.
pub proof fn lemma_append_ordering(p: RollupState, n: u64)
    ensures
        append_allowed(None, n) <==> n == 0,
        p.batch_number < u64::MAX ==> append_allowed(Some(p), (p.batch_number + 1) as u64),
        n != p.batch_number + 1 ==> !append_allowed(Some(p), n),
{
}

/// A successful append extends a well-ordered chain: a new commitment whose
/// batch number is the next one and whose history is derived from the last
/// commitment — exactly what `submit_state_commitment` ensures — keeps the
/// chain well-ordered.
pub proof fn lemma_chain_extend(cs: Seq<RollupState>, c: RollupState)
    requires
        chain_ok(cs),
        c.batch_number == cs.len(),
        cs.len() == 0 ==> c.roots() == Seq::<Seq<u8>>::empty(),
        cs.len() > 0 ==> c.roots() == next_previous_roots(cs.last().roots(), cs.last().root@),
    ensures
        chain_ok(cs.push(c)),
{
    let ext = cs.push(c);
    assert(ext[cs.len() as int] == c);
    assert forall|i: int| 0 <= i < ext.len() implies (#[trigger] ext[i]).batch_number == i by {
        if i < cs.len() {
            assert(ext[i] == cs[i]);
        }
    }
    assert forall|i: int| 1 <= i < ext.len() implies (#[trigger] ext[i]).roots()
        == next_previous_roots(ext[i - 1].roots(), ext[i - 1].root@) by {
        if i < cs.len() {
            assert(ext[i] == cs[i]);
            assert(ext[i - 1] == cs[i - 1]);
        } else {
            assert(ext[i - 1] == cs.last());
        }
    }
    if ext.len() > 1 {
        assert(ext[0] == cs[0]);
    }
}

/// Root-history characterization: in a well-ordered chain, commitment `i`
/// retains exactly the roots of the batches before it, capped to the most
/// recent 5, in batch order.
pub proof fn lemma_chain_history(cs: Seq<RollupState>, i: int)
    requires
        chain_ok(cs),
        0 <= i < cs.len(),
    ensures
        cs[i].roots() == chain_roots(cs).subrange(
            if i <= MAX_PREVIOUS_ROOTS {
                0
            } else {
                i - MAX_PREVIOUS_ROOTS
            },
            i,
        ),
    decreases i,
{
    let r = chain_roots(cs);
    if i == 0 {
        assert(cs[0].roots() =~= r.subrange(0, 0));
    } else {
        lemma_chain_history(cs, i - 1);
        let lo_prev: int = if i - 1 <= MAX_PREVIOUS_ROOTS {
            0
        } else {
            i - 1 - MAX_PREVIOUS_ROOTS
        };
        let lo: int = if i <= MAX_PREVIOUS_ROOTS {
            0
        } else {
            i - MAX_PREVIOUS_ROOTS
        };
        let pushed = cs[i - 1].roots().push(cs[i - 1].root@);
        assert(r[i - 1] == cs[i - 1].root@);
        assert(pushed =~= r.subrange(lo_prev, i));
        assert(cs[i].roots() == next_previous_roots(cs[i - 1].roots(), cs[i - 1].root@));
        if pushed.len() > MAX_PREVIOUS_ROOTS {
            assert(cs[i].roots() == pushed.subrange(
                pushed.len() - MAX_PREVIOUS_ROOTS,
                pushed.len() as int,
            ));
            assert(pushed.subrange(pushed.len() - MAX_PREVIOUS_ROOTS, pushed.len() as int)
                =~= r.subrange(lo, i));
        } else {
            assert(cs[i].roots() == pushed);
            assert(lo == lo_prev);
        }
    }
}

/// History bound: once at least batches 0 through 5 have been appended, the
/// latest commitment retains exactly 5 roots — those of the 5 batches just
/// before it, in increasing batch order.
pub proof fn lemma_history_bound(cs: Seq<RollupState>)
    requires
        chain_ok(cs),
        cs.len() >= 6,
    ensures
        cs.last().roots().len() == MAX_PREVIOUS_ROOTS,
        forall|j: int|
            0 <= j < MAX_PREVIOUS_ROOTS ==> cs.last().roots()[j] == cs[cs.len() - 1
                - MAX_PREVIOUS_ROOTS + j].root@,
{
    let n = cs.len() - 1;
    lemma_chain_history(cs, n);
    assert(cs.last() == cs[n]);
    assert forall|j: int| 0 <= j < MAX_PREVIOUS_ROOTS implies cs.last().roots()[j] == cs[n
        - MAX_PREVIOUS_ROOTS + j].root@ by {
        assert(chain_roots(cs)[n - MAX_PREVIOUS_ROOTS + j] == cs[n - MAX_PREVIOUS_ROOTS
            + j].root@);
    }
}

/// Root history at small chain lengths: empty after batch 0, `[root 0]`
/// after batch 1, `[root 0, root 1]` after batch 2.
pub proof fn lemma_history_small(cs: Seq<RollupState>)
    requires
        chain_ok(cs),
    ensures
        cs.len() >= 1 ==> cs[0].roots() == Seq::<Seq<u8>>::empty(),
        cs.len() >= 2 ==> cs[1].roots() == seq![cs[0].root@],
        cs.len() >= 3 ==> cs[2].roots() == seq![cs[0].root@, cs[1].root@],
{
    if cs.len() >= 2 {
        lemma_chain_history(cs, 1);
        assert(chain_roots(cs).subrange(0, 1) =~= seq![cs[0].root@]);
    }
    if cs.len() >= 3 {
        lemma_chain_history(cs, 2);
        assert(chain_roots(cs).subrange(0, 2) =~= seq![cs[0].root@, cs[1].root@]);
    }
}

/// Validates the ordering rule against the optional predecessor and, on
/// success, builds the new immutable commitment: the given root, validator
/// and timestamp, `finalized` unset, and the predecessor's root history with
/// the predecessor's own root appended, trimmed from the front to at most 5.
pub fn submit_state_commitment(
    previous_rollup_state: Option<&RollupState>,
    batch_number: u64,
    merkle_root: Vec<u8>,
    validator: Vec<u8>,
    now: i64,
) -> (result: Result<RollupState, RollupProgramError>)
    requires
        1 <= merkle_root@.len() <= MAX_ROOT_LEN,
        previous_rollup_state is Some ==> previous_rollup_state->0.wf(),
    ensures
        result is Ok <==> append_allowed(
            match previous_rollup_state {
                None => None,
                Some(p) => Some(*p),
            },
            batch_number,
        ),
        result is Err ==> result->Err_0 == RollupProgramError::InvalidBatchNumber,
        result is Ok ==> ({
            let c = result->Ok_0;
            &&& c.batch_number == batch_number
            &&& c.root@ == merkle_root@
            &&& c.validator@ == validator@
            &&& c.timestamp == now
            &&& c.finalized == false
            &&& c.roots() == (match previous_rollup_state {
                None => Seq::<Seq<u8>>::empty(),
                Some(p) => next_previous_roots(p.roots(), p.root@),
            })
            &&& c.wf()
        }),
{
    let mut previous_roots: Vec<Vec<u8>> = Vec::new();
    match previous_rollup_state {
        Some(prev_state) => {
            // The natural rule is batch_number == prev.batch_number + 1; a
            // predecessor together with batch number 0 must be rejected here
            // rather than letting the subtraction below wrap.
            if batch_number == 0 || prev_state.batch_number != batch_number - 1 {
                return Err(RollupProgramError::InvalidBatchNumber);
            }
            let n = prev_state.previous_roots.len();
            // Keep only the suffix that survives the trim once the
            // predecessor's root is appended.
            let start: usize = if n + 1 > MAX_PREVIOUS_ROOTS {
                n + 1 - MAX_PREVIOUS_ROOTS
            } else {
                0
            };
            let mut i: usize = start;
            assert(views_of(previous_roots@) =~= prev_state.roots().subrange(
                start as int,
                start as int,
            ));
            while i < n
                invariant
                    start <= i <= n,
                    n == prev_state.roots().len(),
                    views_of(previous_roots@) == prev_state.roots().subrange(
                        start as int,
                        i as int,
                    ),
                decreases n - i,
            {
                let cloned = clone_bytes(&prev_state.previous_roots[i]);
                let ghost cv = cloned@;
                let ghost before = previous_roots@;
                previous_roots.push(cloned);
                proof {
                    assert(cv == prev_state.roots()[i as int]);
                    assert(views_of(before).len() == i - start);
                    assert(before.len() == i - start);
                    assert(previous_roots@ == before.push(previous_roots@[i - start]));
                    assert(previous_roots@.len() == i + 1 - start);
                    assert forall|j: int| 0 <= j < i + 1 - start implies views_of(
                        previous_roots@,
                    )[j] == prev_state.roots().subrange(start as int, i + 1)[j] by {
                        assert(views_of(previous_roots@)[j] == previous_roots@[j]@);
                        if j < i - start {
                            assert(views_of(before)[j] == prev_state.roots().subrange(
                                start as int,
                                i as int,
                            )[j]);
                            assert(views_of(before)[j] == before[j]@);
                            assert(previous_roots@[j] == before[j]);
                        } else {
                            assert(previous_roots@[j]@ == cv);
                        }
                    }
                    assert(views_of(previous_roots@) =~= prev_state.roots().subrange(
                        start as int,
                        i + 1,
                    ));
                }
                i = i + 1;
            }
            let last = clone_bytes(&prev_state.root);
            let ghost lv = last@;
            let ghost before_last = previous_roots@;
            previous_roots.push(last);
            proof {
                let want = next_previous_roots(prev_state.roots(), prev_state.root@);
                assert(want.len() == n - start + 1);
                assert(views_of(before_last).len() == n - start);
                assert(before_last.len() == n - start);
                assert(previous_roots@ == before_last.push(previous_roots@[n - start]));
                assert(previous_roots@.len() == n + 1 - start);
                assert forall|j: int| 0 <= j < n + 1 - start implies views_of(previous_roots@)[j]
                    == want[j] by {
                    assert(views_of(previous_roots@)[j] == previous_roots@[j]@);
                    if j < n - start {
                        assert(views_of(before_last)[j] == prev_state.roots().subrange(
                            start as int,
                            n as int,
                        )[j]);
                        assert(views_of(before_last)[j] == before_last[j]@);
                        assert(previous_roots@[j] == before_last[j]);
                        assert(want[j] == prev_state.roots()[start + j]);
                    } else {
                        assert(previous_roots@[j]@ == lv);
                        assert(want[j] == prev_state.root@);
                    }
                }
                assert(views_of(previous_roots@) =~= next_previous_roots(
                    prev_state.roots(),
                    prev_state.root@,
                ));
            }
        },
        None => {
            if batch_number != 0 {
                return Err(RollupProgramError::InvalidBatchNumber);
            }
            assert(views_of(previous_roots@) =~= Seq::<Seq<u8>>::empty());
        },
    }
    Ok(
        RollupState {
            finalized: false,
            batch_number,
            timestamp: now,
            validator,
            previous_roots,
            root: merkle_root,
        },
    )
}

} // verus!
