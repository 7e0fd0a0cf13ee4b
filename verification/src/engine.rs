//! The verifiable write engine and the rebuild path.
//!
//! A batch write takes the digests of the rows the relational store
//! returned, proves the transition from the trusted root, and applies the
//! new leaves only when the proof verifies; on any error the tree is left
//! untouched. A rebuild recomputes the whole tree from authoritative row
//! digests; its result does not depend on the order the rows arrive in.

use vstd::prelude::*;
use crate::digest::{Digest, zero_digest_bytes};
use crate::hashing::{hash_key, hash_value, leaf_preimage, node_preimage, sha256_of};
use crate::json::{JsonValue, json_wf, str_bytes};
use crate::smt::{
    SmtStore, smt_leaves, smt_root_of, proof_data, computed_root, proof_binds, apply_leaves,
    zip_leaves, all_len32, digests_view, pairs_view, digests_wf, digests_distinct, no_leaves,
    compute_root_from_proof,
};
use crate::verify::{
    transition_verified, verify_smt_multi_update_proof_with_old_values, verify_smt_proof,
    zip_digests,
};

verus! {

/// Every leaf value a well-formed tree holds is 32 bytes and not the zero
/// digest: setting a leaf to zero deletes it instead.
pub open spec fn leaves_wf(m: Map<Seq<u8>, Seq<u8>>) -> bool {
    forall|k: Seq<u8>|
        #[trigger] m.contains_key(k) ==> m[k].len() == 32 && m[k] != zero_digest_bytes()
}

/// No two key byte strings coincide.
pub open spec fn views_distinct(ks: Seq<Seq<u8>>) -> bool {
    forall|i: int, j: int| 0 <= i < j < ks.len() ==> (#[trigger] ks[i]) != (#[trigger] ks[j])
}

/// The value the tree currently holds for each key: the stored leaf, or the
/// zero digest where the key is absent.
pub open spec fn current_values_of(m: Map<Seq<u8>, Seq<u8>>, keys: Seq<Seq<u8>>) -> Seq<Seq<u8>> {
    Seq::new(keys.len(), |i: int| if m.contains_key(keys[i]) {
        m[keys[i]]
    } else {
        zero_digest_bytes()
    })
}

/// Writing back the values a tree already holds leaves the tree as it was.
pub proof fn lemma_apply_current_identity(m: Map<Seq<u8>, Seq<u8>>, keys: Seq<Seq<u8>>)
    requires
        leaves_wf(m),
        views_distinct(keys),
    ensures
        apply_leaves(m, keys, current_values_of(m, keys)) == m,
    decreases keys.len(),
{
    if keys.len() > 0 {
        let vals = current_values_of(m, keys);
        let ks0 = keys.drop_last();
        assert(vals.drop_last() =~= current_values_of(m, ks0));
        lemma_apply_current_identity(m, ks0);
        let k = keys.last();
        if m.contains_key(k) {
            assert(m.insert(k, m[k]) =~= m);
        } else {
            assert(m.remove(k) =~= m);
        }
    }
}

/// Applying 32-byte leaves keeps the tree's values well formed.
pub proof fn lemma_apply_leaves_wf(
    m: Map<Seq<u8>, Seq<u8>>,
    keys: Seq<Seq<u8>>,
    vals: Seq<Seq<u8>>,
)
    requires
        leaves_wf(m),
        keys.len() == vals.len(),
        all_len32(vals),
    ensures
        leaves_wf(apply_leaves(m, keys, vals)),
    decreases keys.len(),
{
    if keys.len() > 0 {
        assert(all_len32(vals.drop_last()));
        lemma_apply_leaves_wf(m, keys.drop_last(), vals.drop_last());
    }
}

/// An error the write engine reports; the tree is untouched in every case.
#[derive(Debug)]
pub enum EngineError {
    /// The batch held no records.
    EmptyBatch,
    /// Two records in the batch hashed to the same leaf key.
    DuplicateKey,
    /// The transition did not verify against the trusted root: the caller's
    /// root is stale. Both roots are returned for the caller to report.
    ProofFailure { trusted_root: Digest, proposed_root: Digest },
}

/// Checks that no two keys in the batch coincide.
pub fn check_distinct(keys: &Vec<Digest>) -> (r: bool)
    ensures
        r == digests_distinct(keys@),
{
    let mut i: usize = 0;
    while i < keys.len()
        invariant
            i <= keys@.len(),
            forall|a: int, b: int|
                0 <= a < i && a < b < keys@.len() ==> (#[trigger] keys@[a])@ != (
                #[trigger] keys@[b])@,
        decreases keys@.len() - i,
    {
        let mut j: usize = i + 1;
        while j < keys.len()
            invariant
                i < j <= keys@.len(),
                forall|b: int| i < b < j ==> (#[trigger] keys@[b])@ != keys@[i as int]@,
            decreases keys@.len() - j,
        {
            if keys[i] == keys[j] {
                return false;
            }
            j = j + 1;
        }
        i = i + 1;
    }
    true
}

/// Reads the values the tree currently holds for the given keys.
pub fn read_current_values(smt: &SmtStore, keys: &Vec<Digest>) -> (r: Vec<Digest>)
    requires
        digests_wf(keys@),
    ensures
        digests_wf(r@),
        digests_view(r@) == current_values_of(smt_leaves(smt.tree), digests_view(keys@)),
{
    let mut out: Vec<Digest> = Vec::new();
    let mut i: usize = 0;
    while i < keys.len()
        invariant
            i <= keys@.len(),
            digests_wf(keys@),
            out@.len() == i as int,
            digests_wf(out@),
            forall|j: int|
                0 <= j < i ==> (#[trigger] out@[j])@ == current_values_of(
                    smt_leaves(smt.tree),
                    digests_view(keys@),
                )[j],
        decreases keys@.len() - i,
    {
        let v = smt.get(&keys[i]);
        out.push(v);
        i = i + 1;
    }
    proof {
        assert(digests_view(out@) =~= current_values_of(smt_leaves(smt.tree), digests_view(keys@)));
    }
    out
}

/// Applies a batch of leaves to the tree, in order.
pub fn apply_updates(smt: &mut SmtStore, updates: &Vec<(Digest, Digest)>)
    requires
        digests_wf(updates@.map_values(|p: (Digest, Digest)| p.0)),
        digests_wf(updates@.map_values(|p: (Digest, Digest)| p.1)),
    ensures
        smt_leaves(final(smt).tree) == apply_leaves(
            smt_leaves(old(smt).tree),
            digests_view(updates@.map_values(|p: (Digest, Digest)| p.0)),
            digests_view(updates@.map_values(|p: (Digest, Digest)| p.1)),
        ),
{
    let ghost base = smt_leaves(smt.tree);
    let ghost kv = digests_view(updates@.map_values(|p: (Digest, Digest)| p.0));
    let ghost vv = digests_view(updates@.map_values(|p: (Digest, Digest)| p.1));
    let mut i: usize = 0;
    while i < updates.len()
        invariant
            i <= updates@.len(),
            digests_wf(updates@.map_values(|p: (Digest, Digest)| p.0)),
            digests_wf(updates@.map_values(|p: (Digest, Digest)| p.1)),
            kv == digests_view(updates@.map_values(|p: (Digest, Digest)| p.0)),
            vv == digests_view(updates@.map_values(|p: (Digest, Digest)| p.1)),
            smt_leaves(smt.tree) == apply_leaves(base, kv.take(i as int), vv.take(i as int)),
        decreases updates@.len() - i,
    {
        proof {
            assert(updates@.map_values(|p: (Digest, Digest)| p.0)[i as int] == updates@[i as int].0);
            assert(updates@.map_values(|p: (Digest, Digest)| p.1)[i as int] == updates@[i as int].1);
        }
        smt.update(&updates[i].0, &updates[i].1);
        proof {
            assert(kv.take(i + 1).drop_last() =~= kv.take(i as int));
            assert(vv.take(i + 1).drop_last() =~= vv.take(i as int));
            assert(kv.take(i + 1).last() == kv[i as int]);
            assert(vv.take(i + 1).last() == vv[i as int]);
        }
        i = i + 1;
    }
    proof {
        assert(kv.take(kv.len() as int) =~= kv);
        assert(vv.take(vv.len() as int) =~= vv);
    }
}

/// Writes one verified batch, at digest level: prove, read prior values,
/// compute the proposed root, verify, apply.
///
/// `keys` and `new_values` are the digests of the rows the relational store
/// returned. The write succeeds exactly when the batch is non-empty, its
/// keys are distinct, and the caller's trusted root is the root the tree
/// currently holds; the verified transition is then applied and the
/// proposed root returned with its proof. On any error the tree is
/// untouched.
pub fn write_batch(
    smt: &mut SmtStore,
    trusted_root: &Digest,
    keys: &Vec<Digest>,
    new_values: &Vec<Digest>,
) -> (r: Result<(Digest, sparse_merkle_tree::MerkleProof), EngineError>)
    requires
        trusted_root.wf(),
        digests_wf(keys@),
        digests_wf(new_values@),
        keys@.len() == new_values@.len(),
        leaves_wf(smt_leaves(old(smt).tree)),
    ensures
        match r {
            Ok(ok) => {
                &&& keys@.len() > 0
                &&& digests_distinct(keys@)
                &&& trusted_root@ == smt_root_of(smt_leaves(old(smt).tree))
                &&& smt_leaves(final(smt).tree) == apply_leaves(
                    smt_leaves(old(smt).tree),
                    digests_view(keys@),
                    digests_view(new_values@),
                )
                &&& leaves_wf(smt_leaves(final(smt).tree))
                &&& ok.0.wf()
                &&& ok.0@ == smt_root_of(smt_leaves(final(smt).tree))
                &&& transition_verified(
                    trusted_root@,
                    ok.0@,
                    digests_view(keys@),
                    current_values_of(smt_leaves(old(smt).tree), digests_view(keys@)),
                    digests_view(new_values@),
                    proof_data(ok.1),
                )
            },
            Err(e) => {
                &&& *final(smt) == *old(smt)
                &&& match e {
                    EngineError::EmptyBatch => keys@.len() == 0,
                    EngineError::DuplicateKey => keys@.len() > 0 && !digests_distinct(keys@),
                    EngineError::ProofFailure { trusted_root: t, proposed_root: p } => {
                        &&& keys@.len() > 0
                        &&& digests_distinct(keys@)
                        &&& trusted_root@ != smt_root_of(smt_leaves(old(smt).tree))
                        &&& t@ == trusted_root@
                        &&& p.wf()
                        &&& p@ == smt_root_of(apply_leaves(
                            smt_leaves(old(smt).tree),
                            digests_view(keys@),
                            digests_view(new_values@),
                        ))
                    },
                }
            },
        },
{
    if keys.len() == 0 {
        return Err(EngineError::EmptyBatch);
    }
    if !check_distinct(keys) {
        return Err(EngineError::DuplicateKey);
    }
    let ghost base = smt_leaves(smt.tree);
    let ghost kv = digests_view(keys@);
    let ghost vv = digests_view(new_values@);
    proof {
        assert(views_distinct(kv)) by {
            assert forall|i: int, j: int| 0 <= i < j < kv.len() implies kv[i] != kv[j] by {
                assert(keys@[i]@ != keys@[j]@);
            }
        }
        assert(all_len32(vv)) by {
            assert forall|i: int| 0 <= i < vv.len() implies (#[trigger] vv[i]).len() == 32 by {
                assert(keys@.len() == new_values@.len());
                assert(new_values@[i].wf());
            }
        }
    }
    let merkle_proof = smt.merkle_proof(keys);
    let old_values = read_current_values(smt, keys);
    proof {
        assert(all_len32(digests_view(old_values@))) by {
            assert forall|i: int|
                0 <= i < digests_view(old_values@).len() implies (#[trigger] digests_view(
                old_values@,
            )[i]).len() == 32 by {
                assert(old_values@[i].wf());
            }
        }
    }
    let new_leaves = zip_digests(keys, new_values);
    let proposed_root = compute_root_from_proof(&merkle_proof, &new_leaves);
    let ok = verify_smt_multi_update_proof_with_old_values(
        trusted_root,
        &proposed_root,
        keys,
        &old_values,
        new_values,
        &merkle_proof,
    );
    proof {
        let pd = proof_data(merkle_proof);
        let cur = current_values_of(base, kv);
        assert(digests_view(old_values@) == cur);
        assert(computed_root(pd, zip_leaves(kv, cur)) == smt_root_of(apply_leaves(base, kv, cur)));
        lemma_apply_current_identity(base, kv);
        assert(computed_root(pd, zip_leaves(kv, vv)) == smt_root_of(apply_leaves(base, kv, vv)));
        assert(proposed_root@ == computed_root(pd, zip_leaves(kv, vv)));
        assert(ok == (trusted_root@ == smt_root_of(base)));
    }
    if !ok {
        return Err(
            EngineError::ProofFailure {
                trusted_root: trusted_root.clone(),
                proposed_root: proposed_root,
            },
        );
    }
    apply_updates(smt, &new_leaves);
    proof {
        assert forall|j: int|
            0 <= j < new_leaves@.len() implies (#[trigger] new_leaves@[j]).0@ == kv[j]
            && new_leaves@[j].1@ == vv[j] by {
            assert(new_leaves@[j].0@ == keys@[j]@);
            assert(kv[j] == keys@[j]@);
            assert(vv[j] == new_values@[j]@);
        }
        assert(digests_view(new_leaves@.map_values(|p: (Digest, Digest)| p.0)) =~= kv);
        assert(digests_view(new_leaves@.map_values(|p: (Digest, Digest)| p.1)) =~= vv);
        lemma_apply_leaves_wf(base, kv, vv);
    }
    Ok((proposed_root, merkle_proof))
}

/// Proves the values the tree currently holds for the given keys.
///
/// The returned proof and values re-verify against the current root: the
/// read path's round trip (see `lemma_read_round_trip`).
pub fn prove_current(smt: &SmtStore, keys: &Vec<Digest>) -> (r: (
    sparse_merkle_tree::MerkleProof,
    Vec<Digest>,
))
    requires
        keys@.len() > 0,
        digests_wf(keys@),
        digests_distinct(keys@),
        leaves_wf(smt_leaves(smt.tree)),
    ensures
        digests_wf(r.1@),
        digests_view(r.1@) == current_values_of(smt_leaves(smt.tree), digests_view(keys@)),
        computed_root(proof_data(r.0), zip_leaves(digests_view(keys@), digests_view(r.1@)))
            == smt_root_of(smt_leaves(smt.tree)),
{
    let merkle_proof = smt.merkle_proof(keys);
    let values = read_current_values(smt, keys);
    proof {
        assert(views_distinct(digests_view(keys@))) by {
            assert forall|i: int, j: int|
                0 <= i < j < digests_view(keys@).len() implies digests_view(keys@)[i]
                != digests_view(keys@)[j] by {
                assert(keys@[i]@ != keys@[j]@);
            }
        }
        lemma_read_round_trip(
            proof_data(merkle_proof),
            smt_leaves(smt.tree),
            digests_view(keys@),
        );
    }
    (merkle_proof, values)
}

/// Round-trip law: a proof generated over any keys of the current tree
/// re-verifies the values the tree holds against the current root.
pub proof fn lemma_read_round_trip(pd: Seq<u8>, base: Map<Seq<u8>, Seq<u8>>, keys: Seq<Seq<u8>>)
    requires
        proof_binds(pd, base, keys),
        views_distinct(keys),
        leaves_wf(base),
    ensures
        computed_root(pd, zip_leaves(keys, current_values_of(base, keys))) == smt_root_of(base),
{
    let cur = current_values_of(base, keys);
    assert(all_len32(cur)) by {
        assert forall|i: int| 0 <= i < cur.len() implies (#[trigger] cur[i]).len() == 32 by {
            if base.contains_key(keys[i]) {
            } else {
                assert(cur[i] == zero_digest_bytes());
            }
        }
    }
    assert(computed_root(pd, zip_leaves(keys, cur)) == smt_root_of(apply_leaves(base, keys, cur)));
    lemma_apply_current_identity(base, keys);
}

/// Rebuilds a tree from scratch out of authoritative row digests: every
/// pair is installed into a fresh tree. Returns the store, its root, and
/// the number of leaves applied.
pub fn rebuild_smt(pairs: &Vec<(Digest, Digest)>) -> (r: (SmtStore, Digest, u64))
    requires
        digests_wf(pairs@.map_values(|p: (Digest, Digest)| p.0)),
        digests_wf(pairs@.map_values(|p: (Digest, Digest)| p.1)),
    ensures
        smt_leaves(r.0.tree) == apply_leaves(
            no_leaves(),
            digests_view(pairs@.map_values(|p: (Digest, Digest)| p.0)),
            digests_view(pairs@.map_values(|p: (Digest, Digest)| p.1)),
        ),
        leaves_wf(smt_leaves(r.0.tree)),
        r.1.wf(),
        r.1@ == smt_root_of(smt_leaves(r.0.tree)),
        r.2 == pairs@.len(),
{
    let mut smt = SmtStore::empty();
    apply_updates(&mut smt, pairs);
    proof {
        assert(leaves_wf(no_leaves()));
        assert(all_len32(digests_view(pairs@.map_values(|p: (Digest, Digest)| p.1)))) by {
            let vv = digests_view(pairs@.map_values(|p: (Digest, Digest)| p.1));
            assert forall|i: int| 0 <= i < vv.len() implies (#[trigger] vv[i]).len() == 32 by {
                assert(pairs@.map_values(|p: (Digest, Digest)| p.1)[i].wf());
            }
        }
        lemma_apply_leaves_wf(
            no_leaves(),
            digests_view(pairs@.map_values(|p: (Digest, Digest)| p.0)),
            digests_view(pairs@.map_values(|p: (Digest, Digest)| p.1)),
        );
    }
    let root = smt.root();
    let count = pairs.len() as u64;
    (smt, root, count)
}

/// A key the batch does not mention keeps its binding.
pub proof fn lemma_apply_leaves_untouched(
    m: Map<Seq<u8>, Seq<u8>>,
    keys: Seq<Seq<u8>>,
    vals: Seq<Seq<u8>>,
    k: Seq<u8>,
)
    requires
        keys.len() == vals.len(),
        !keys.contains(k),
    ensures
        apply_leaves(m, keys, vals).contains_key(k) == m.contains_key(k),
        m.contains_key(k) ==> apply_leaves(m, keys, vals)[k] == m[k],
    decreases keys.len(),
{
    if keys.len() > 0 {
        let ks0 = keys.drop_last();
        assert(!ks0.contains(k)) by {
            if ks0.contains(k) {
                let i = choose|i: int| 0 <= i < ks0.len() && ks0[i] == k;
                assert(keys[i] == k);
            }
        }
        lemma_apply_leaves_untouched(m, ks0, vals.drop_last(), k);
        assert(keys.last() != k) by {
            assert(keys[keys.len() - 1] == keys.last());
        }
    }
}

/// A key the batch mentions ends at the value paired with it: stored under
/// the key, or deleted when that value is zero.
pub proof fn lemma_apply_leaves_at(
    m: Map<Seq<u8>, Seq<u8>>,
    keys: Seq<Seq<u8>>,
    vals: Seq<Seq<u8>>,
    i: int,
)
    requires
        keys.len() == vals.len(),
        views_distinct(keys),
        0 <= i < keys.len(),
    ensures
        vals[i] == zero_digest_bytes() ==> !apply_leaves(m, keys, vals).contains_key(keys[i]),
        vals[i] != zero_digest_bytes() ==> apply_leaves(m, keys, vals).contains_key(keys[i])
            && apply_leaves(m, keys, vals)[keys[i]] == vals[i],
    decreases keys.len(),
{
    let ks0 = keys.drop_last();
    let vs0 = vals.drop_last();
    if i == keys.len() - 1 {
        assert(keys.last() == keys[i]);
        assert(vals.last() == vals[i]);
    } else {
        assert(ks0[i] == keys[i]);
        assert(vs0[i] == vals[i]);
        lemma_apply_leaves_at(m, ks0, vs0, i);
        assert(keys.last() != keys[i]) by {
            assert(keys[keys.len() - 1] == keys.last());
        }
    }
}

/// Rebuild order independence: two rebuilds fed the same leaves, in any
/// order, produce the same tree and the same root.
pub proof fn lemma_rebuild_order_independent(
    keys1: Seq<Seq<u8>>,
    vals1: Seq<Seq<u8>>,
    keys2: Seq<Seq<u8>>,
    vals2: Seq<Seq<u8>>,
)
    requires
        keys1.len() == vals1.len(),
        keys2.len() == vals2.len(),
        views_distinct(keys1),
        views_distinct(keys2),
        zip_leaves(keys1, vals1).to_multiset() == zip_leaves(keys2, vals2).to_multiset(),
    ensures
        apply_leaves(no_leaves(), keys1, vals1) == apply_leaves(no_leaves(), keys2, vals2),
        smt_root_of(apply_leaves(no_leaves(), keys1, vals1)) == smt_root_of(
            apply_leaves(no_leaves(), keys2, vals2),
        ),
{
    let z1 = zip_leaves(keys1, vals1);
    let z2 = zip_leaves(keys2, vals2);
    let m1 = apply_leaves(no_leaves(), keys1, vals1);
    let m2 = apply_leaves(no_leaves(), keys2, vals2);
    z1.to_multiset_ensures();
    z2.to_multiset_ensures();
    assert forall|k: Seq<u8>|
        #![trigger m1.contains_key(k), m2.contains_key(k)]
        true implies m1.contains_key(k) == m2.contains_key(k) && (m1.contains_key(k)
        ==> m1[k] == m2[k]) by {
        if keys1.contains(k) {
            let i = choose|i: int| 0 <= i < keys1.len() && keys1[i] == k;
            let p = (k, vals1[i]);
            assert(z1[i] == p);
            assert(z1.contains(p));
            assert(z1.to_multiset().count(p) > 0);
            assert(z2.to_multiset().count(p) > 0);
            assert(z2.contains(p));
            let j = choose|j: int| 0 <= j < z2.len() && z2[j] == p;
            assert(keys2[j] == k && vals2[j] == vals1[i]);
            lemma_apply_leaves_at(no_leaves(), keys1, vals1, i);
            lemma_apply_leaves_at(no_leaves(), keys2, vals2, j);
        } else {
            assert(!keys2.contains(k)) by {
                if keys2.contains(k) {
                    let j = choose|j: int| 0 <= j < keys2.len() && keys2[j] == k;
                    let q = (k, vals2[j]);
                    assert(z2[j] == q);
                    assert(z2.contains(q));
                    assert(z2.to_multiset().count(q) > 0);
                    assert(z1.to_multiset().count(q) > 0);
                    assert(z1.contains(q));
                    let i = choose|i: int| 0 <= i < z1.len() && z1[i] == q;
                    assert(keys1[i] == k);
                }
            }
            lemma_apply_leaves_untouched(no_leaves(), keys1, vals1, k);
            lemma_apply_leaves_untouched(no_leaves(), keys2, vals2, k);
        }
    }
    assert(m1 =~= m2);
}

/// The leaves a batch of returned rows hashes to: each row's identity keyed
/// under the node tag, its content under the leaf tag.
pub open spec fn read_leaves(table: Seq<u8>, rows: Seq<(String, JsonValue)>) -> Seq<
    (Seq<u8>, Seq<u8>),
> {
    Seq::new(
        rows.len(),
        |i: int|
            (
                sha256_of(node_preimage(table, str_bytes(rows[i].0@))),
                sha256_of(leaf_preimage(rows[i].1)),
            ),
    )
}

/// Verifies a batch of rows read back from the relational store: each row
/// is hashed to its leaf, and the proof must recompute the trusted root
/// from exactly those leaves.
pub fn verify_read_batch(
    table_name: &str,
    rows: &Vec<(String, JsonValue)>,
    root: &Digest,
    proof: &sparse_merkle_tree::MerkleProof,
) -> (r: bool)
    requires
        root.wf(),
        forall|i: int| 0 <= i < rows@.len() ==> json_wf((#[trigger] rows@[i]).1),
    ensures
        r == (computed_root(proof_data(*proof), read_leaves(str_bytes(table_name@), rows@))
            == root@),
{
    let mut leaves: Vec<(Digest, Digest)> = Vec::new();
    let mut i: usize = 0;
    while i < rows.len()
        invariant
            i <= rows@.len(),
            forall|j: int| 0 <= j < rows@.len() ==> json_wf((#[trigger] rows@[j]).1),
            leaves@.len() == i as int,
            forall|j: int|
                0 <= j < i ==> (#[trigger] leaves@[j]).0@ == read_leaves(
                    str_bytes(table_name@),
                    rows@,
                )[j].0 && leaves@[j].1@ == read_leaves(str_bytes(table_name@), rows@)[j].1
                    && leaves@[j].0.wf() && leaves@[j].1.wf(),
        decreases rows@.len() - i,
    {
        let key = hash_key(table_name, rows[i].0.as_str());
        let value = hash_value(&rows[i].1);
        leaves.push((key, value));
        i = i + 1;
    }
    let r = verify_smt_proof(root, &leaves, proof);
    proof {
        assert(pairs_view(leaves@) =~= read_leaves(str_bytes(table_name@), rows@));
    }
    r
}

/// Determinism: the root a batch reaches is a mathematical function of the
/// prior leaves and the batch's key and value digests, so two processes —
/// on any machines — that hold equal trees and apply equal batches reach
/// equal roots.
pub proof fn lemma_root_deterministic(
    m1: Map<Seq<u8>, Seq<u8>>,
    m2: Map<Seq<u8>, Seq<u8>>,
    keys: Seq<Seq<u8>>,
    vals: Seq<Seq<u8>>,
)
    requires
        m1 == m2,
    ensures
        smt_root_of(apply_leaves(m1, keys, vals)) == smt_root_of(apply_leaves(m2, keys, vals)),
{
}

} // verus!
