//! Canonical, domain-separated hashing of row values and row identities.
//!
//! A row value is committed as `SHA256("VERIFLEAF" || canonical_json(row))`;
//! a row identity as `SHA256("VERIFNODE" || table || primary_key)`. The two
//! tags differ, so no value preimage can collide with a key preimage.

use vstd::prelude::*;
use sha2::Digest as _;
use crate::digest::Digest;
use crate::json::{JsonValue, canon_bytes, json_wf, str_bytes, write_canon};

verus! {

/// The domain tag for row values: the ASCII bytes of `VERIFLEAF`.
pub open spec fn leaf_tag() -> Seq<u8> {
    seq![0x56u8, 0x45u8, 0x52u8, 0x49u8, 0x46u8, 0x4cu8, 0x45u8, 0x41u8, 0x46u8]
}

/// The domain tag for row identities: the ASCII bytes of `VERIFNODE`.
pub open spec fn node_tag() -> Seq<u8> {
    seq![0x56u8, 0x45u8, 0x52u8, 0x49u8, 0x46u8, 0x4eu8, 0x4fu8, 0x44u8, 0x45u8]
}

/// The bytes whose SHA-256 digest commits to a row value.
pub open spec fn leaf_preimage(v: JsonValue) -> Seq<u8> {
    leaf_tag() + canon_bytes(v)
}

/// The bytes whose SHA-256 digest commits to a row identity.
pub open spec fn node_preimage(table: Seq<u8>, pk: Seq<u8>) -> Seq<u8> {
    node_tag() + table + pk
}

/// What SHA-256 returns for the given input bytes.
pub uninterp spec fn sha256_of(input: Seq<u8>) -> Seq<u8>;

/// Relies on sha2's `Sha256`: the digest is 32 bytes and depends on the
/// input bytes alone.
#[verifier::external_body]
fn sha256(input: &Vec<u8>) -> (r: Digest)
    ensures
        r.wf(),
        r@ == sha256_of(input@),
{
    let mut hasher = sha2::Sha256::new();
    hasher.update(input.as_slice());
    Digest { bytes: hasher.finalize().to_vec() }
}

/// Appends a slice's bytes.
fn push_bytes(out: &mut Vec<u8>, s: &[u8])
    ensures
        final(out)@ == old(out)@ + s@,
{
    let mut i: usize = 0;
    while i < s.len()
        invariant
            i <= s@.len(),
            out@ == old(out)@ + s@.take(i as int),
        decreases s@.len() - i,
    {
        out.push(s[i]);
        proof {
            assert(out@ =~= old(out)@ + s@.take(i + 1));
        }
        i = i + 1;
    }
    proof {
        assert(s@.take(s@.len() as int) =~= s@);
    }
}

/// Appends the `VERIFLEAF` tag.
fn push_leaf_tag(out: &mut Vec<u8>)
    ensures
        final(out)@ == old(out)@ + leaf_tag(),
{
    out.push(0x56);
    out.push(0x45);
    out.push(0x52);
    out.push(0x49);
    out.push(0x46);
    out.push(0x4c);
    out.push(0x45);
    out.push(0x41);
    out.push(0x46);
    proof {
        assert(out@ =~= old(out)@ + leaf_tag());
    }
}

/// Appends the `VERIFNODE` tag.
fn push_node_tag(out: &mut Vec<u8>)
    ensures
        final(out)@ == old(out)@ + node_tag(),
{
    out.push(0x56);
    out.push(0x45);
    out.push(0x52);
    out.push(0x49);
    out.push(0x46);
    out.push(0x4e);
    out.push(0x4f);
    out.push(0x44);
    out.push(0x45);
    proof {
        assert(out@ =~= old(out)@ + node_tag());
    }
}

/// Hashes a row value into its leaf digest: the tagged SHA-256 of the
/// canonical serialization.
pub fn hash_value(value: &JsonValue) -> (r: Digest)
    requires
        json_wf(*value),
    ensures
        r.wf(),
        r@ == sha256_of(leaf_preimage(*value)),
{
    let mut input: Vec<u8> = Vec::new();
    push_leaf_tag(&mut input);
    write_canon(value, &mut input);
    sha256(&input)
}

/// Hashes a row identity `(table, primary key)` into its leaf key digest.
pub fn hash_key(table_name: &str, primary_key: &str) -> (r: Digest)
    ensures
        r.wf(),
        r@ == sha256_of(node_preimage(str_bytes(table_name@), str_bytes(primary_key@))),
{
    let mut input: Vec<u8> = Vec::new();
    push_node_tag(&mut input);
    push_bytes(&mut input, table_name.as_bytes());
    push_bytes(&mut input, primary_key.as_bytes());
    proof {
        assert(input@ =~= node_preimage(str_bytes(table_name@), str_bytes(primary_key@)));
    }
    sha256(&input)
}

/// Domain separation: no row value is hashed from the same bytes as any row
/// identity, whatever the value, table, and primary key. The two domain tags
/// differ where `VERIFLEAF` and `VERIFNODE` do.
pub proof fn lemma_domain_separation(v: JsonValue, table: Seq<u8>, pk: Seq<u8>)
    ensures
        leaf_preimage(v) != node_preimage(table, pk),
{
    assert(leaf_preimage(v)[5] == 0x4cu8);
    assert(node_preimage(table, pk)[5] == 0x4eu8);
}

} // verus!
