//! The write engine against the real sparse Merkle tree: transitions,
//! round trips, rollbacks, rebuilds.

use verifiable_memory_example::digest::Digest;
use verifiable_memory_example::engine::{
    prove_current, read_current_values, rebuild_smt, verify_read_batch, write_batch, EngineError,
};
use verifiable_memory_example::hashing::{hash_key, hash_value};
use verifiable_memory_example::json::{obj_insert, JsonValue};
use verifiable_memory_example::smt::SmtStore;
use verifiable_memory_example::verify::{
    verify_smt_multi_update_proof, verify_smt_multi_update_proof_with_old_values,
    verify_smt_proof, zip_digests,
};

type RawSmt = sparse_merkle_tree::SparseMerkleTree<
    sparse_merkle_tree::blake2b::Blake2bHasher,
    sparse_merkle_tree::H256,
    sparse_merkle_tree::default_store::DefaultStore<sparse_merkle_tree::H256>,
>;

fn d(n: u8) -> Digest {
    let mut bytes = vec![n; 32];
    bytes[31] = n.wrapping_add(1);
    Digest::from_bytes(bytes).unwrap()
}

fn raw_h256(x: &Digest) -> sparse_merkle_tree::H256 {
    let mut b = [0u8; 32];
    b.copy_from_slice(x.as_bytes());
    b.into()
}

fn flip_first_byte(x: &Digest) -> Digest {
    let mut bytes = x.as_bytes().clone();
    bytes[0] ^= 0x01;
    Digest::from_bytes(bytes).unwrap()
}

#[test]
fn empty_store_has_zero_root() {
    let smt = SmtStore::empty();
    assert!(smt.root() == Digest::zero());
}

#[test]
fn first_write_from_zero_root() {
    let mut smt = SmtStore::empty();
    let keys = vec![d(1)];
    let values = vec![d(9)];
    let zero = Digest::zero();
    let (proposed, proof) = write_batch(&mut smt, &zero, &keys, &values).unwrap();
    assert!(smt.root() == proposed);
    assert!(!(proposed == Digest::zero()));

    // The same leaf installed directly through the tree crate gives the
    // same root: the wrapped store computes, it does not echo.
    let mut raw = RawSmt::default();
    raw.update(raw_h256(&d(1)), raw_h256(&d(9))).unwrap();
    assert_eq!(raw.root().as_slice(), proposed.as_bytes().as_slice());

    // The returned transition verifies from the all-zero prior state.
    let olds = vec![Digest::zero()];
    assert!(verify_smt_multi_update_proof_with_old_values(
        &zero, &proposed, &keys, &olds, &values, &proof
    ));
    assert!(verify_smt_multi_update_proof(&zero, &proposed, &keys, &values, &proof));
}

#[test]
fn upsert_transitions_old_value() {
    let mut smt = SmtStore::empty();
    let keys = vec![d(1)];
    let zero = Digest::zero();
    let (root1, _) = write_batch(&mut smt, &zero, &keys, &vec![d(9)]).unwrap();

    let olds = read_current_values(&smt, &keys);
    assert!(olds[0] == d(9));

    let (root2, proof2) = write_batch(&mut smt, &root1, &keys, &vec![d(10)]).unwrap();
    assert!(!(root2 == root1));
    assert!(verify_smt_multi_update_proof_with_old_values(
        &root1,
        &root2,
        &keys,
        &olds,
        &vec![d(10)],
        &proof2
    ));
    assert!(read_current_values(&smt, &keys)[0] == d(10));
}

#[test]
fn stale_root_rolls_back() {
    let mut smt = SmtStore::empty();
    let zero = Digest::zero();
    let (root1, _) = write_batch(&mut smt, &zero, &vec![d(1)], &vec![d(9)]).unwrap();

    let stale = flip_first_byte(&root1);
    let before = smt.root();
    let r = write_batch(&mut smt, &stale, &vec![d(2)], &vec![d(8)]);
    match r {
        Err(EngineError::ProofFailure { trusted_root, .. }) => {
            assert!(trusted_root == stale);
        }
        _ => panic!("a stale trusted root must fail proof verification"),
    }
    assert!(smt.root() == before);
    assert!(read_current_values(&smt, &vec![d(2)])[0] == Digest::zero());
}

#[test]
fn empty_batch_is_rejected() {
    let mut smt = SmtStore::empty();
    let zero = Digest::zero();
    let r = write_batch(&mut smt, &zero, &vec![], &vec![]);
    assert!(matches!(r, Err(EngineError::EmptyBatch)));
    assert!(smt.root() == Digest::zero());
}

#[test]
fn duplicate_keys_are_rejected() {
    let mut smt = SmtStore::empty();
    let zero = Digest::zero();
    let r = write_batch(&mut smt, &zero, &vec![d(1), d(1)], &vec![d(9), d(8)]);
    assert!(matches!(r, Err(EngineError::DuplicateKey)));
    assert!(smt.root() == Digest::zero());
}

#[test]
fn read_proof_round_trips() {
    let mut smt = SmtStore::empty();
    let zero = Digest::zero();
    let keys = vec![d(1), d(2), d(3)];
    let values = vec![d(9), d(8), d(7)];
    let (root, _) = write_batch(&mut smt, &zero, &keys, &values).unwrap();

    let (proof, current) = prove_current(&smt, &keys);
    let leaves = zip_digests(&keys, &current);
    assert!(verify_smt_proof(&root, &leaves, &proof));

    // A flipped root must not verify the same proof.
    assert!(!verify_smt_proof(&flip_first_byte(&root), &leaves, &proof));
}

#[test]
fn proof_covers_absent_keys() {
    let mut smt = SmtStore::empty();
    let zero = Digest::zero();
    let (root, _) = write_batch(&mut smt, &zero, &vec![d(1)], &vec![d(9)]).unwrap();

    let keys = vec![d(1), d(2)];
    let (proof, current) = prove_current(&smt, &keys);
    assert!(current[0] == d(9));
    assert!(current[1] == Digest::zero());
    let leaves = zip_digests(&keys, &current);
    assert!(verify_smt_proof(&root, &leaves, &proof));
}

#[test]
fn zero_value_deletes_leaf() {
    let mut smt = SmtStore::empty();
    let zero = Digest::zero();
    let (root1, _) = write_batch(&mut smt, &zero, &vec![d(1)], &vec![d(9)]).unwrap();
    let (root2, _) = write_batch(&mut smt, &root1, &vec![d(1)], &vec![Digest::zero()]).unwrap();
    assert!(root2 == Digest::zero());
    assert!(smt.root() == Digest::zero());
}

#[test]
fn rebuild_is_order_independent() {
    let pairs_a = vec![(d(1), d(9)), (d(2), d(8)), (d(3), d(7))];
    let pairs_b = vec![(d(3), d(7)), (d(1), d(9)), (d(2), d(8))];
    let (_, root_a, count_a) = rebuild_smt(&pairs_a);
    let (_, root_b, count_b) = rebuild_smt(&pairs_b);
    assert!(root_a == root_b);
    assert_eq!(count_a, 3);
    assert_eq!(count_b, 3);
}

#[test]
fn rebuild_twice_gives_the_same_root() {
    let pairs = vec![(d(1), d(9)), (d(2), d(8))];
    let (_, root1, _) = rebuild_smt(&pairs);
    let (_, root2, _) = rebuild_smt(&pairs);
    assert!(root1 == root2);
}

#[test]
fn rebuild_agrees_with_the_write_path() {
    let mut smt = SmtStore::empty();
    let zero = Digest::zero();
    let keys = vec![d(1), d(2)];
    let values = vec![d(9), d(8)];
    let (written_root, _) = write_batch(&mut smt, &zero, &keys, &values).unwrap();

    let pairs = vec![(d(1), d(9)), (d(2), d(8))];
    let (rebuilt, rebuilt_root, count) = rebuild_smt(&pairs);
    assert!(rebuilt_root == written_root);
    assert!(rebuilt.root() == written_root);
    assert_eq!(count, 2);
}

#[test]
fn sequential_writes_advance_the_root() {
    let mut smt = SmtStore::empty();
    let zero = Digest::zero();
    let (root1, _) = write_batch(&mut smt, &zero, &vec![d(1)], &vec![d(9)]).unwrap();
    let (root2, _) = write_batch(&mut smt, &root1, &vec![d(2)], &vec![d(8)]).unwrap();
    let (root3, _) = write_batch(&mut smt, &root2, &vec![d(3)], &vec![d(7)]).unwrap();
    assert!(!(root1 == root2));
    assert!(!(root2 == root3));
    assert!(smt.root() == root3);
}

#[test]
fn zero_digest_reads_as_zero() {
    assert!(Digest::zero().is_zero());
    assert!(!d(1).is_zero());
}

#[test]
fn read_back_rows_verify_against_the_root() {
    let mut entries: Vec<(String, JsonValue)> = Vec::new();
    obj_insert(&mut entries, "id".to_string(), JsonValue::Int(1));
    obj_insert(
        &mut entries,
        "email".to_string(),
        JsonValue::Str("a@b".to_string()),
    );
    let row = JsonValue::Obj(entries);

    let mut smt = SmtStore::empty();
    let zero = Digest::zero();
    let keys = vec![hash_key("users", "1")];
    let values = vec![hash_value(&row)];
    let (root, _) = write_batch(&mut smt, &zero, &keys, &values).unwrap();

    let (proof, _) = prove_current(&smt, &keys);
    let rows = vec![("1".to_string(), row)];
    assert!(verify_read_batch("users", &rows, &root, &proof));
    assert!(!verify_read_batch("users", &rows, &flip_first_byte(&root), &proof));

    // A row whose content was tampered with must not verify.
    let mut entries2: Vec<(String, JsonValue)> = Vec::new();
    obj_insert(&mut entries2, "id".to_string(), JsonValue::Int(1));
    obj_insert(
        &mut entries2,
        "email".to_string(),
        JsonValue::Str("evil@b".to_string()),
    );
    let tampered = vec![("1".to_string(), JsonValue::Obj(entries2))];
    let (proof2, _) = prove_current(&smt, &keys);
    assert!(!verify_read_batch("users", &tampered, &root, &proof2));
}
