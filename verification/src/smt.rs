//! The sparse Merkle tree over leaf digests.
//!
//! The tree itself comes from the sparse-merkle-tree crate, hashed with its
//! Blake2b-256 node hasher; this module declares the crate's types, gives the
//! tree's contents a name, and wraps the operations the engine calls.
//! Everything above those wrappers is verified against the names.

use vstd::prelude::*;
use crate::digest::{Digest, zero_digest_bytes};

verus! {

#[verifier::external_type_specification]
#[verifier::external_body]
#[verifier::reject_recursive_types(H)]
#[verifier::reject_recursive_types(V)]
#[verifier::reject_recursive_types(S)]
pub struct ExSparseMerkleTree<H, V, S>(sparse_merkle_tree::SparseMerkleTree<H, V, S>);

#[verifier::external_type_specification]
#[verifier::external_body]
pub struct ExH256(sparse_merkle_tree::H256);

#[verifier::external_type_specification]
#[verifier::external_body]
pub struct ExMerkleProof(sparse_merkle_tree::MerkleProof);

#[verifier::external_type_specification]
#[verifier::external_body]
pub struct ExBlake2bHasher(sparse_merkle_tree::blake2b::Blake2bHasher);

#[verifier::external_type_specification]
#[verifier::external_body]
#[verifier::reject_recursive_types(V)]
pub struct ExDefaultStore<V>(sparse_merkle_tree::default_store::DefaultStore<V>);

/// The in-memory tree: Blake2b-256 node hasher, 32-byte leaf values, the
/// crate's own in-memory node store.
pub type SmtTree = sparse_merkle_tree::SparseMerkleTree<
    sparse_merkle_tree::blake2b::Blake2bHasher,
    sparse_merkle_tree::H256,
    sparse_merkle_tree::default_store::DefaultStore<sparse_merkle_tree::H256>,
>;

/// The empty leaf map.
pub open spec fn no_leaves() -> Map<Seq<u8>, Seq<u8>> {
    Map::empty()
}

/// The non-zero leaves the tree currently holds, keyed and valued by their
/// 32-byte contents.
pub uninterp spec fn smt_leaves(t: SmtTree) -> Map<Seq<u8>, Seq<u8>>;

/// The root digest determined by a set of non-zero leaves.
pub uninterp spec fn smt_root_of(leaves: Map<Seq<u8>, Seq<u8>>) -> Seq<u8>;

/// The content of a Merkle proof: its leaf bitmaps and sibling path.
pub uninterp spec fn proof_data(p: sparse_merkle_tree::MerkleProof) -> Seq<u8>;

/// What `MerkleProof::compute_root` returns for a proof's content and a list
/// of candidate `(key, value)` leaves; the zero digest where the crate
/// reports an error.
pub uninterp spec fn computed_root(pd: Seq<u8>, leaves: Seq<(Seq<u8>, Seq<u8>)>) -> Seq<u8>;

/// One leaf set against a map of non-zero leaves: a zero value deletes the
/// key, any other value is stored under it.
pub open spec fn apply_leaf(m: Map<Seq<u8>, Seq<u8>>, key: Seq<u8>, value: Seq<u8>) -> Map<
    Seq<u8>,
    Seq<u8>,
> {
    if value == zero_digest_bytes() {
        m.remove(key)
    } else {
        m.insert(key, value)
    }
}

/// A whole batch of leaves applied in order.
pub open spec fn apply_leaves(
    m: Map<Seq<u8>, Seq<u8>>,
    keys: Seq<Seq<u8>>,
    vals: Seq<Seq<u8>>,
) -> Map<Seq<u8>, Seq<u8>>
    recommends
        keys.len() == vals.len(),
    decreases keys.len(),
{
    if keys.len() == 0 {
        m
    } else {
        apply_leaf(apply_leaves(m, keys.drop_last(), vals.drop_last()), keys.last(), vals.last())
    }
}

/// Keys paired with values, position by position.
pub open spec fn zip_leaves(keys: Seq<Seq<u8>>, vals: Seq<Seq<u8>>) -> Seq<(Seq<u8>, Seq<u8>)>
    recommends
        keys.len() == vals.len(),
{
    Seq::new(keys.len(), |i: int| (keys[i], vals[i]))
}

/// All byte strings in the sequence are 32 bytes long.
pub open spec fn all_len32(vals: Seq<Seq<u8>>) -> bool {
    forall|i: int| 0 <= i < vals.len() ==> (#[trigger] vals[i]).len() == 32
}

/// A proof generated over `keys` against a tree holding `base` binds every
/// candidate assignment of 32-byte values to those keys: recomputing a root
/// from the proof gives exactly the root of `base` with those leaves
/// installed.
pub open spec fn proof_binds(pd: Seq<u8>, base: Map<Seq<u8>, Seq<u8>>, keys: Seq<Seq<u8>>) -> bool {
    forall|vals: Seq<Seq<u8>>|
        vals.len() == keys.len() && all_len32(vals) ==> #[trigger] computed_root(
            pd,
            zip_leaves(keys, vals),
        ) == smt_root_of(apply_leaves(base, keys, vals))
}

/// The views of a sequence of digests.
pub open spec fn digests_view(ds: Seq<Digest>) -> Seq<Seq<u8>> {
    ds.map_values(|d: Digest| d@)
}

/// The views of a sequence of digest pairs.
pub open spec fn pairs_view(ps: Seq<(Digest, Digest)>) -> Seq<(Seq<u8>, Seq<u8>)> {
    ps.map_values(|p: (Digest, Digest)| (p.0@, p.1@))
}

/// Every digest in the sequence is well formed.
pub open spec fn digests_wf(ds: Seq<Digest>) -> bool {
    forall|i: int| 0 <= i < ds.len() ==> (#[trigger] ds[i]).wf()
}

/// No two digests in the sequence hold the same bytes.
pub open spec fn digests_distinct(ds: Seq<Digest>) -> bool {
    forall|i: int, j: int| 0 <= i < j < ds.len() ==> (#[trigger] ds[i])@ != (#[trigger] ds[j])@
}

/// The in-memory sparse Merkle tree, wrapped for verified callers.
pub struct SmtStore {
    pub tree: SmtTree,
}

impl SmtStore {
    /// The leaf map the store currently commits to.
    pub open spec fn leaves(&self) -> Map<Seq<u8>, Seq<u8>> {
        smt_leaves(self.tree)
    }

    /// An empty tree. Relies on the crate's `Default`: a fresh tree has no
    /// leaves and the zero root, so the zero digest is the root of the empty
    /// leaf map.
    #[verifier::external_body]
    pub fn empty() -> (r: SmtStore)
        ensures
            smt_leaves(r.tree) == no_leaves(),
            smt_root_of(smt_leaves(r.tree)) == zero_digest_bytes(),
    {
        SmtStore { tree: SmtTree::default() }
    }

    /// The current root. Relies on `SparseMerkleTree::root`: the root the
    /// tree maintains for its current leaves.
    #[verifier::external_body]
    pub fn root(&self) -> (r: Digest)
        ensures
            r.wf(),
            r@ == smt_root_of(smt_leaves(self.tree)),
    {
        Digest { bytes: self.tree.root().as_slice().to_vec() }
    }

    /// Sets one leaf. Relies on `SparseMerkleTree::update`: a zero value
    /// deletes the leaf, any other value is stored; the crate's in-memory
    /// store never reports an error.
    #[verifier::external_body]
    pub fn update(&mut self, key: &Digest, value: &Digest)
        requires
            key.wf(),
            value.wf(),
        ensures
            smt_leaves(final(self).tree) == apply_leaf(smt_leaves(old(self).tree), key@, value@),
    {
        let mut kb = [0u8; 32];
        kb.copy_from_slice(&key.bytes);
        let mut vb = [0u8; 32];
        vb.copy_from_slice(&value.bytes);
        let _ = self.tree.update(kb.into(), vb.into()).unwrap();
    }

    /// Reads one leaf. Relies on `SparseMerkleTree::get`: the stored value,
    /// or the zero digest where the key has no leaf.
    #[verifier::external_body]
    pub fn get(&self, key: &Digest) -> (r: Digest)
        requires
            key.wf(),
        ensures
            r.wf(),
            r@ == if smt_leaves(self.tree).contains_key(key@) {
                smt_leaves(self.tree)[key@]
            } else {
                zero_digest_bytes()
            },
    {
        let mut kb = [0u8; 32];
        kb.copy_from_slice(&key.bytes);
        let v = self.tree.get(&kb.into()).unwrap();
        Digest { bytes: v.as_slice().to_vec() }
    }

    /// Produces a multi-leaf proof over the given keys. Relies on
    /// `SparseMerkleTree::merkle_proof` together with
    /// `MerkleProof::compute_root`: both sort by key internally, and a proof
    /// over these keys recomputes, for any candidate values, the root the
    /// tree would have with those leaves installed; with at least one key the
    /// call does not fail.
    #[verifier::external_body]
    pub fn merkle_proof(&self, keys: &Vec<Digest>) -> (r: sparse_merkle_tree::MerkleProof)
        requires
            keys@.len() > 0,
            digests_wf(keys@),
            digests_distinct(keys@),
        ensures
            proof_binds(proof_data(r), smt_leaves(self.tree), digests_view(keys@)),
    {
        let ks: Vec<sparse_merkle_tree::H256> = keys.iter().map(
            |d: &Digest|
                {
                    let mut kb = [0u8; 32];
                    kb.copy_from_slice(&d.bytes);
                    kb.into()
                },
        ).collect();
        self.tree.merkle_proof(ks).unwrap()
    }
}

/// Recomputes a root from a proof and candidate leaves. Relies on
/// `MerkleProof::compute_root`: a pure function of the proof's content and
/// the `(key, value)` pairs; the zero digest where the crate reports an
/// error.
#[verifier::external_body]
pub fn compute_root_from_proof(
    proof: &sparse_merkle_tree::MerkleProof,
    leaves: &Vec<(Digest, Digest)>,
) -> (r: Digest)
    requires
        digests_wf(leaves@.map_values(|p: (Digest, Digest)| p.0)),
        digests_wf(leaves@.map_values(|p: (Digest, Digest)| p.1)),
    ensures
        r.wf(),
        r@ == computed_root(proof_data(*proof), pairs_view(leaves@)),
{
    let ls: Vec<(sparse_merkle_tree::H256, sparse_merkle_tree::H256)> = leaves.iter().map(
        |p: &(Digest, Digest)|
            {
                let mut kb = [0u8; 32];
                kb.copy_from_slice(&p.0.bytes);
                let mut vb = [0u8; 32];
                vb.copy_from_slice(&p.1.bytes);
                (kb.into(), vb.into())
            },
    ).collect();
    let root = proof.clone().compute_root::<sparse_merkle_tree::blake2b::Blake2bHasher>(
        ls,
    ).unwrap_or_default();
    Digest { bytes: root.as_slice().to_vec() }
}

} // verus!
