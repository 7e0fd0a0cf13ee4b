//! The pure proof verifier.
//!
//! Verification never consults the tree: it recomputes roots from the proof
//! and the candidate leaves alone, and compares them with the trusted and
//! proposed roots.

use vstd::prelude::*;
use crate::digest::{Digest, zero_digest_bytes};
use crate::smt::{
    computed_root, proof_data, pairs_view, zip_leaves, digests_view, digests_wf,
    compute_root_from_proof,
};

verus! {

/// What the multi-leaf transition verifier decides: both lists match the
/// keys in length, the old leaves recompute to the trusted root, and the new
/// leaves recompute to the proposed root.
pub open spec fn transition_verified(
    trusted_root: Seq<u8>,
    proposed_root: Seq<u8>,
    keys: Seq<Seq<u8>>,
    old_values: Seq<Seq<u8>>,
    new_values: Seq<Seq<u8>>,
    pd: Seq<u8>,
) -> bool {
    &&& keys.len() == old_values.len()
    &&& keys.len() == new_values.len()
    &&& computed_root(pd, zip_leaves(keys, old_values)) == trusted_root
    &&& computed_root(pd, zip_leaves(keys, new_values)) == proposed_root
}

/// Pairs keys with values, one by one.
pub fn zip_digests(keys: &Vec<Digest>, vals: &Vec<Digest>) -> (r: Vec<(Digest, Digest)>)
    requires
        keys@.len() == vals@.len(),
    ensures
        pairs_view(r@) == zip_leaves(digests_view(keys@), digests_view(vals@)),
        r@.len() == keys@.len(),
        forall|j: int|
            0 <= j < r@.len() ==> (#[trigger] r@[j]).0@ == keys@[j]@ && r@[j].1@ == vals@[j]@,
        digests_wf(keys@) ==> digests_wf(r@.map_values(|p: (Digest, Digest)| p.0)),
        digests_wf(vals@) ==> digests_wf(r@.map_values(|p: (Digest, Digest)| p.1)),
{
    let mut out: Vec<(Digest, Digest)> = Vec::new();
    let mut i: usize = 0;
    while i < keys.len()
        invariant
            keys@.len() == vals@.len(),
            i <= keys@.len(),
            out@.len() == i as int,
            forall|j: int|
                0 <= j < i ==> (#[trigger] out@[j]).0@ == keys@[j]@ && out@[j].1@ == vals@[j]@,
        decreases keys@.len() - i,
    {
        out.push((keys[i].clone(), vals[i].clone()));
        i = i + 1;
    }
    proof {
        assert(pairs_view(out@) =~= zip_leaves(digests_view(keys@), digests_view(vals@)));
        let firsts = out@.map_values(|p: (Digest, Digest)| p.0);
        let seconds = out@.map_values(|p: (Digest, Digest)| p.1);
        assert forall|j: int| 0 <= j < out@.len() implies (#[trigger] firsts[j])@ == keys@[j]@
            && seconds[j]@ == vals@[j]@ by {
            assert(out@[j].0@ == keys@[j]@);
        }
    }
    out
}

/// Verifies a multi-leaf proof against one root: true exactly when the
/// leaves recompute to it.
pub fn verify_smt_proof(
    root: &Digest,
    leaves: &Vec<(Digest, Digest)>,
    proof: &sparse_merkle_tree::MerkleProof,
) -> (r: bool)
    requires
        root.wf(),
        digests_wf(leaves@.map_values(|p: (Digest, Digest)| p.0)),
        digests_wf(leaves@.map_values(|p: (Digest, Digest)| p.1)),
    ensures
        r == (computed_root(proof_data(*proof), pairs_view(leaves@)) == root@),
{
    let calculated = compute_root_from_proof(proof, leaves);
    calculated == *root
}

/// Verifies a multi-leaf state transition with explicit prior leaf values:
/// true exactly when the lists match the keys in length, the old leaves
/// recompute to the trusted root, and the new leaves recompute to the
/// proposed root.
pub fn verify_smt_multi_update_proof_with_old_values(
    trusted_root: &Digest,
    proposed_root: &Digest,
    keys: &Vec<Digest>,
    old_values: &Vec<Digest>,
    new_values: &Vec<Digest>,
    proof: &sparse_merkle_tree::MerkleProof,
) -> (r: bool)
    requires
        trusted_root.wf(),
        proposed_root.wf(),
        digests_wf(keys@),
        digests_wf(old_values@),
        digests_wf(new_values@),
    ensures
        r == transition_verified(
            trusted_root@,
            proposed_root@,
            digests_view(keys@),
            digests_view(old_values@),
            digests_view(new_values@),
            proof_data(*proof),
        ),
{
    if keys.len() != old_values.len() || keys.len() != new_values.len() {
        return false;
    }
    let old_leaves = zip_digests(keys, old_values);
    let calculated_old = compute_root_from_proof(proof, &old_leaves);
    if !(calculated_old == *trusted_root) {
        return false;
    }
    let new_leaves = zip_digests(keys, new_values);
    let calculated_new = compute_root_from_proof(proof, &new_leaves);
    calculated_new == *proposed_root
}

/// Verifies a batch transition whose keys were absent before the write: the
/// prior value of every leaf is the zero digest.
pub fn verify_smt_multi_update_proof(
    trusted_root: &Digest,
    proposed_root: &Digest,
    keys: &Vec<Digest>,
    new_values: &Vec<Digest>,
    proof: &sparse_merkle_tree::MerkleProof,
) -> (r: bool)
    requires
        trusted_root.wf(),
        proposed_root.wf(),
        digests_wf(keys@),
        digests_wf(new_values@),
    ensures
        r == transition_verified(
            trusted_root@,
            proposed_root@,
            digests_view(keys@),
            Seq::new(keys@.len() as nat, |i: int| zero_digest_bytes()),
            digests_view(new_values@),
            proof_data(*proof),
        ),
{
    let mut old_values: Vec<Digest> = Vec::new();
    let mut i: usize = 0;
    while i < keys.len()
        invariant
            i <= keys@.len(),
            old_values@.len() == i as int,
            digests_wf(old_values@),
            forall|j: int| 0 <= j < i ==> (#[trigger] old_values@[j])@ == zero_digest_bytes(),
        decreases keys@.len() - i,
    {
        old_values.push(Digest::zero());
        i = i + 1;
    }
    let r = verify_smt_multi_update_proof_with_old_values(
        trusted_root,
        proposed_root,
        keys,
        &old_values,
        new_values,
        proof,
    );
    proof {
        assert(digests_view(old_values@) =~= Seq::new(
            keys@.len() as nat,
            |i: int| zero_digest_bytes(),
        ));
    }
    r
}

/// Verifies a single-leaf transition from an absent leaf to `new_value`.
pub fn verify_smt_proof_of_update(
    trusted_root: &Digest,
    proposed_root: &Digest,
    key: &Digest,
    new_value: &Digest,
    proof: &sparse_merkle_tree::MerkleProof,
) -> (r: bool)
    requires
        trusted_root.wf(),
        proposed_root.wf(),
        key.wf(),
        new_value.wf(),
    ensures
        r == transition_verified(
            trusted_root@,
            proposed_root@,
            seq![key@],
            seq![zero_digest_bytes()],
            seq![new_value@],
            proof_data(*proof),
        ),
{
    let mut keys: Vec<Digest> = Vec::new();
    keys.push(key.clone());
    let mut new_values: Vec<Digest> = Vec::new();
    new_values.push(new_value.clone());
    let r = verify_smt_multi_update_proof(trusted_root, proposed_root, &keys, &new_values, proof);
    proof {
        assert(digests_view(keys@) =~= seq![key@]);
        assert(digests_view(new_values@) =~= seq![new_value@]);
        assert(Seq::new(keys@.len() as nat, |i: int| zero_digest_bytes()) =~= seq![
            zero_digest_bytes(),
        ]);
    }
    r
}

} // verus!
