//! The Merkle inclusion check behind fraud-proof verification: recompute a
//! root from a leaf and an ordered sibling list, hashing each pair with the
//! lexicographically smaller byte sequence first, and compare the result
//! byte-for-byte against the committed root.

use vstd::prelude::*;

use crate::bytes::{append_bytes, clone_bytes, eq_bytes};
use crate::state::views_of;

verus! {

/// The digest that the fixed cryptographic hash assigns to a byte sequence.
/// Its value is given only by the trusted wrapper below.
pub uninterp spec fn hash_of(input: Seq<u8>) -> Seq<u8>;

/// Strict lexicographic order on byte sequences, as byte slices compare:
/// the first differing byte decides; a strict prefix is smaller.
pub open spec fn lex_lt(a: Seq<u8>, b: Seq<u8>) -> bool
    decreases a.len(),
{
    if b.len() == 0 {
        false
    } else if a.len() == 0 {
        true
    } else if a[0] != b[0] {
        a[0] < b[0]
    } else {
        lex_lt(a.subrange(1, a.len() as int), b.subrange(1, b.len() as int))
    }
}

/// The canonical pair-hash input: the lexicographically smaller sequence
/// first, then the other.
pub open spec fn pair_bytes(a: Seq<u8>, b: Seq<u8>) -> Seq<u8> {
    if lex_lt(a, b) {
        a + b
    } else {
        b + a
    }
}

/// The node reached from `node` by consuming `proof` in order, hashing the
/// canonical pair at each step.
pub open spec fn merkle_fold(node: Seq<u8>, proof: Seq<Seq<u8>>) -> Seq<u8>
    decreases proof.len(),
{
    if proof.len() == 0 {
        node
    } else {
        merkle_fold(hash_of(pair_bytes(node, proof[0])), proof.subrange(1, proof.len() as int))
    }
}

/// Whether `leaf` is included under `root` via the sibling path `proof`.
pub open spec fn inclusion_holds(leaf: Seq<u8>, proof: Seq<Seq<u8>>, root: Seq<u8>) -> bool {
    merkle_fold(leaf, proof) == root
}

/// Lexicographic order is asymmetric, and two sequences neither of which is
/// smaller than the other are equal.
proof fn lemma_lex_lt_trichotomy(a: Seq<u8>, b: Seq<u8>)
    ensures
        lex_lt(a, b) ==> !lex_lt(b, a),
        !lex_lt(a, b) && !lex_lt(b, a) ==> a == b,
    decreases a.len(),
{
    if a.len() > 0 && b.len() > 0 && a[0] == b[0] {
        let ta = a.subrange(1, a.len() as int);
        let tb = b.subrange(1, b.len() as int);
        lemma_lex_lt_trichotomy(ta, tb);
        if !lex_lt(a, b) && !lex_lt(b, a) {
            assert(ta == tb);
            assert(a.len() == b.len());
            assert forall|j: int| 0 <= j < a.len() implies a[j] == b[j] by {
                if j >= 1 {
                    assert(ta[j - 1] == a[j]);
                    assert(tb[j - 1] == b[j]);
                }
            }
            assert(a =~= b);
        }
    }
}

/// Order-independence within a pair: the canonical smaller-first rule, not
/// the order in which the two sequences are supplied, determines the hash
/// input, so the pair hash is symmetric.
pub proof fn lemma_pair_order_independent(a: Seq<u8>, b: Seq<u8>)
    ensures
        pair_bytes(a, b) == pair_bytes(b, a),
        hash_of(pair_bytes(a, b)) == hash_of(pair_bytes(b, a)),
{
    lemma_lex_lt_trichotomy(a, b);
    if !lex_lt(a, b) && !lex_lt(b, a) {
        assert(a == b);
    }
}

/// Determinism: the inclusion verdict is a function of the leaf, the proof
/// and the root alone, so two calls of `verify_merkle_proof` on identical
/// inputs return identical results.
pub proof fn lemma_verify_deterministic(
    leaf: Seq<u8>,
    proof: Seq<Seq<u8>>,
    root: Seq<u8>,
    r1: bool,
    r2: bool,
)
    requires
        r1 == inclusion_holds(leaf, proof, root),
        r2 == inclusion_holds(leaf, proof, root),
    ensures
        r1 == r2,
{
}

/// Relies on anchor_lang::solana_program::hash::hash (SHA-256): the digest
/// is 32 bytes and depends on the input bytes alone.
#[verifier::external_body]
fn hash_bytes(input: &Vec<u8>) -> (r: Vec<u8>)
    ensures
        r@ == hash_of(input@),
        r@.len() == 32,
{
    anchor_lang::solana_program::hash::hash(input.as_slice()).to_bytes().to_vec()
}

/// Strict lexicographic comparison of two byte vectors.
pub fn lt_bytes(a: &Vec<u8>, b: &Vec<u8>) -> (r: bool)
    ensures
        r == lex_lt(a@, b@),
{
    let mut i: usize = 0;
    assert(a@.subrange(0, a@.len() as int) =~= a@);
    assert(b@.subrange(0, b@.len() as int) =~= b@);
    loop
        invariant
            i <= a@.len(),
            i <= b@.len(),
            lex_lt(a@, b@) == lex_lt(
                a@.subrange(i as int, a@.len() as int),
                b@.subrange(i as int, b@.len() as int),
            ),
        decreases a@.len() - i,
    {
        let ghost suf_a = a@.subrange(i as int, a@.len() as int);
        let ghost suf_b = b@.subrange(i as int, b@.len() as int);
        if i == b.len() {
            assert(suf_b.len() == 0);
            return false;
        }
        if i == a.len() {
            assert(suf_a.len() == 0 && suf_b.len() > 0);
            return true;
        }
        assert(suf_a[0] == a@[i as int] && suf_b[0] == b@[i as int]);
        if a[i] < b[i] {
            return true;
        }
        if a[i] > b[i] {
            return false;
        }
        assert(suf_a.subrange(1, suf_a.len() as int) =~= a@.subrange(
            i + 1,
            a@.len() as int,
        ));
        assert(suf_b.subrange(1, suf_b.len() as int) =~= b@.subrange(
            i + 1,
            b@.len() as int,
        ));
        i = i + 1;
    }
}

/// Hash of the canonical pair of two byte sequences: the building block a
/// batch builder uses for the tree and the verifier uses for each step.
pub fn hash_pair(a: &Vec<u8>, b: &Vec<u8>) -> (r: Vec<u8>)
    ensures
        r@ == hash_of(pair_bytes(a@, b@)),
        r@.len() == 32,
{
    let mut combined: Vec<u8>;
    if lt_bytes(a, b) {
        combined = clone_bytes(a);
        append_bytes(&mut combined, b);
    } else {
        combined = clone_bytes(b);
        append_bytes(&mut combined, a);
    }
    assert(combined@ == pair_bytes(a@, b@));
    hash_bytes(&combined)
}

/// Recomputes the root from `leaf` along `proof` and compares it
/// byte-for-byte against `root`. Pure and deterministic: the result is a
/// function of the three arguments alone.
pub fn verify_merkle_proof(leaf: Vec<u8>, proof: Vec<Vec<u8>>, root: Vec<u8>) -> (r: bool)
    ensures
        r == inclusion_holds(leaf@, views_of(proof@), root@),
{
    let ghost leaf0 = leaf@;
    let ghost pd = views_of(proof@);
    let mut node = leaf;
    let mut i: usize = 0;
    assert(pd.subrange(0, pd.len() as int) =~= pd);
    while i < proof.len()
        invariant
            i <= proof@.len(),
            pd == views_of(proof@),
            pd.len() == proof@.len(),
            merkle_fold(leaf0, pd) == merkle_fold(node@, pd.subrange(i as int, pd.len() as int)),
        decreases proof@.len() - i,
    {
        let ghost suf = pd.subrange(i as int, pd.len() as int);
        assert(suf[0] == proof@[i as int]@);
        let next = hash_pair(&node, &proof[i]);
        assert(suf.subrange(1, suf.len() as int) =~= pd.subrange(i + 1, pd.len() as int));
        node = next;
        i = i + 1;
    }
    assert(pd.subrange(pd.len() as int, pd.len() as int) =~= Seq::<Seq<u8>>::empty());
    assert(merkle_fold(leaf0, pd) == node@);
    eq_bytes(&node, &root)
}

} // verus!
