//! Canonical JSON values and their deterministic serialization.
//!
//! Row contents are modelled as JSON values whose object entries are kept in
//! strictly ascending key order (byte-wise over the keys' UTF-8 encoding).
//! Serialization is compact: no whitespace, integers in shortest decimal form,
//! strings escaped byte by byte. Two values with the same content therefore
//! serialize to the same bytes on every machine.

use vstd::prelude::*;

verus! {

/// A JSON value. Numbers are integers: the canonical row serialization this
/// library commits to has no floating-point production.
pub enum JsonValue {
    Null,
    Bool(bool),
    Int(i64),
    UInt(u64),
    Str(String),
    Arr(Vec<JsonValue>),
    Obj(Vec<(String, JsonValue)>),
}

/// The UTF-8 bytes of a string value.
pub open spec fn str_bytes(s: Seq<char>) -> Seq<u8> {
    vstd::utf8::encode_utf8(s)
}

/// Strict byte-wise lexicographic order.
pub open spec fn lex_lt(a: Seq<u8>, b: Seq<u8>) -> bool
    decreases a.len(),
{
    if b.len() == 0 {
        false
    } else if a.len() == 0 {
        true
    } else if a[0] < b[0] {
        true
    } else if a[0] > b[0] {
        false
    } else {
        lex_lt(a.drop_first(), b.drop_first())
    }
}

/// Once the first `i` bytes agree, the order is decided at position `i`.
pub proof fn lemma_lex_lt_at(a: Seq<u8>, b: Seq<u8>, i: int)
    requires
        0 <= i <= a.len(),
        i <= b.len(),
        forall|j: int| 0 <= j < i ==> a[j] == b[j],
        i == a.len() || i == b.len() || a[i] != b[i],
    ensures
        lex_lt(a, b) == (if i == a.len() {
            a.len() < b.len()
        } else if i == b.len() {
            false
        } else {
            a[i] < b[i]
        }),
    decreases i,
{
    if i == 0 {
    } else {
        lemma_lex_lt_at(a.drop_first(), b.drop_first(), i - 1);
    }
}

/// Compares two byte slices in lexicographic order.
pub fn bytes_lt(a: &[u8], b: &[u8]) -> (r: bool)
    ensures
        r == lex_lt(a@, b@),
{
    let mut i: usize = 0;
    loop
        invariant
            i <= a@.len(),
            i <= b@.len(),
            forall|j: int| 0 <= j < i ==> a@[j] == b@[j],
        decreases a@.len() - i,
    {
        if i == a.len() {
            proof {
                lemma_lex_lt_at(a@, b@, i as int);
            }
            return i < b.len();
        }
        if i == b.len() {
            proof {
                lemma_lex_lt_at(a@, b@, i as int);
            }
            return false;
        }
        if a[i] != b[i] {
            proof {
                lemma_lex_lt_at(a@, b@, i as int);
            }
            return a[i] < b[i];
        }
        i = i + 1;
    }
}

/// Byte-for-byte equality of two slices.
pub fn bytes_eq(a: &[u8], b: &[u8]) -> (r: bool)
    ensures
        r == (a@ == b@),
{
    if a.len() != b.len() {
        return false;
    }
    let mut i: usize = 0;
    while i < a.len()
        invariant
            a@.len() == b@.len(),
            i <= a@.len(),
            forall|j: int| 0 <= j < i ==> a@[j] == b@[j],
        decreases a@.len() - i,
    {
        if a[i] != b[i] {
            return false;
        }
        i = i + 1;
    }
    proof {
        assert(a@ =~= b@);
    }
    true
}

/// Shortest decimal rendering of an unsigned integer, as ASCII bytes.
pub open spec fn dec_bytes(n: nat) -> Seq<u8>
    decreases n,
{
    if n < 10 {
        seq![(0x30 + n) as u8]
    } else {
        dec_bytes(n / 10) + seq![(0x30 + n % 10) as u8]
    }
}

/// How one byte of string content is escaped.
pub open spec fn esc_byte(b: u8) -> Seq<u8> {
    if b == 0x22 {
        seq![0x5cu8, 0x22u8]
    } else if b == 0x5c {
        seq![0x5cu8, 0x5cu8]
    } else if b == 0x08 {
        seq![0x5cu8, 0x62u8]
    } else if b == 0x09 {
        seq![0x5cu8, 0x74u8]
    } else if b == 0x0a {
        seq![0x5cu8, 0x6eu8]
    } else if b == 0x0c {
        seq![0x5cu8, 0x66u8]
    } else if b == 0x0d {
        seq![0x5cu8, 0x72u8]
    } else if b < 0x20 {
        seq![0x5cu8, 0x75u8, 0x30u8, 0x30u8, hex_digit((b / 16) as nat), hex_digit((b % 16) as nat)]
    } else {
        seq![b]
    }
}

/// Lower-case hexadecimal digit.
pub open spec fn hex_digit(n: nat) -> u8
    recommends
        n < 16,
{
    if n < 10 {
        (0x30 + n) as u8
    } else {
        (0x61 + (n - 10)) as u8
    }
}

/// A whole string's content, escaped.
pub open spec fn esc_bytes(s: Seq<u8>) -> Seq<u8>
    decreases s.len(),
{
    if s.len() == 0 {
        Seq::empty()
    } else {
        esc_bytes(s.drop_last()) + esc_byte(s.last())
    }
}

/// The canonical serialization of a value.
pub open spec fn canon_bytes(v: JsonValue) -> Seq<u8>
    decreases v,
{
    match v {
        JsonValue::Null => seq![0x6eu8, 0x75u8, 0x6cu8, 0x6cu8],
        JsonValue::Bool(b) => if b {
            seq![0x74u8, 0x72u8, 0x75u8, 0x65u8]
        } else {
            seq![0x66u8, 0x61u8, 0x6cu8, 0x73u8, 0x65u8]
        },
        JsonValue::Int(n) => if n >= 0 {
            dec_bytes(n as nat)
        } else {
            seq![0x2du8] + dec_bytes((-(n as int)) as nat)
        },
        JsonValue::UInt(n) => dec_bytes(n as nat),
        JsonValue::Str(s) => seq![0x22u8] + esc_bytes(str_bytes(s@)) + seq![0x22u8],
        JsonValue::Arr(elems) => seq![0x5bu8] + canon_elems(elems@) + seq![0x5du8],
        JsonValue::Obj(entries) => seq![0x7bu8] + canon_entries(entries@) + seq![0x7du8],
    }
}

/// Array elements, comma separated.
pub open spec fn canon_elems(elems: Seq<JsonValue>) -> Seq<u8>
    decreases elems,
{
    if elems.len() == 0 {
        Seq::empty()
    } else if elems.len() == 1 {
        canon_bytes(elems[0])
    } else {
        canon_elems(elems.drop_last()) + seq![0x2cu8] + canon_bytes(elems.last())
    }
}

/// Object entries, comma separated, each as `"key":value`.
pub open spec fn canon_entries(entries: Seq<(String, JsonValue)>) -> Seq<u8>
    decreases entries,
{
    if entries.len() == 0 {
        Seq::empty()
    } else if entries.len() == 1 {
        canon_entry(entries[0])
    } else {
        canon_entries(entries.drop_last()) + seq![0x2cu8] + canon_entry(entries.last())
    }
}

/// One object entry.
pub open spec fn canon_entry(e: (String, JsonValue)) -> Seq<u8>
    decreases e,
{
    seq![0x22u8] + esc_bytes(str_bytes(e.0@)) + seq![0x22u8, 0x3au8] + canon_bytes(e.1)
}

/// A value is well formed when every object holds its entries in strictly
/// ascending key order; keys are then unique at every level.
pub open spec fn json_wf(v: JsonValue) -> bool
    decreases v,
{
    match v {
        JsonValue::Null => true,
        JsonValue::Bool(_) => true,
        JsonValue::Int(_) => true,
        JsonValue::UInt(_) => true,
        JsonValue::Str(_) => true,
        JsonValue::Arr(elems) => forall|i: int|
            0 <= i < elems@.len() ==> json_wf(#[trigger] elems@[i]),
        JsonValue::Obj(entries) => (forall|i: int|
            0 <= i < entries@.len() ==> json_wf(#[trigger] entries@[i].1)) && (forall|i: int, j: int|
            0 <= i < j < entries@.len() ==> lex_lt(
                str_bytes(#[trigger] entries@[i].0@),
                str_bytes(#[trigger] entries@[j].0@),
            )),
    }
}

/// Lower-case hexadecimal digit, executable form.
fn hex_digit_ex(n: u8) -> (r: u8)
    requires
        n < 16,
    ensures
        r == hex_digit(n as nat),
{
    if n < 10 {
        0x30 + n
    } else {
        0x61 + (n - 10)
    }
}

/// Appends the shortest decimal rendering of `n`.
pub fn write_u64(n: u64, out: &mut Vec<u8>)
    ensures
        final(out)@ == old(out)@ + dec_bytes(n as nat),
    decreases n,
{
    if n < 10 {
        out.push(0x30 + (n as u8));
    } else {
        write_u64(n / 10, out);
        out.push(0x30 + ((n % 10) as u8));
    }
}

/// Appends the escaped content of a string's bytes.
pub fn write_escaped(bytes: &[u8], out: &mut Vec<u8>)
    ensures
        final(out)@ == old(out)@ + esc_bytes(bytes@),
{
    let mut i: usize = 0;
    while i < bytes.len()
        invariant
            i <= bytes@.len(),
            out@ == old(out)@ + esc_bytes(bytes@.take(i as int)),
        decreases bytes@.len() - i,
    {
        let b = bytes[i];
        if b == 0x22 {
            out.push(0x5c);
            out.push(0x22);
        } else if b == 0x5c {
            out.push(0x5c);
            out.push(0x5c);
        } else if b == 0x08 {
            out.push(0x5c);
            out.push(0x62);
        } else if b == 0x09 {
            out.push(0x5c);
            out.push(0x74);
        } else if b == 0x0a {
            out.push(0x5c);
            out.push(0x6e);
        } else if b == 0x0c {
            out.push(0x5c);
            out.push(0x66);
        } else if b == 0x0d {
            out.push(0x5c);
            out.push(0x72);
        } else if b < 0x20 {
            out.push(0x5c);
            out.push(0x75);
            out.push(0x30);
            out.push(0x30);
            out.push(hex_digit_ex(b / 16));
            out.push(hex_digit_ex(b % 16));
        } else {
            out.push(b);
        }
        proof {
            assert(bytes@.take(i + 1).drop_last() =~= bytes@.take(i as int));
            assert(bytes@.take(i + 1).last() == bytes@[i as int]);
            assert(out@ =~= old(out)@ + esc_bytes(bytes@.take(i + 1)));
        }
        i = i + 1;
    }
    proof {
        assert(bytes@.take(bytes@.len() as int) =~= bytes@);
    }
}

/// Appends `"..."`: a quoted, escaped string.
fn write_quoted(s: &String, out: &mut Vec<u8>)
    ensures
        final(out)@ == old(out)@ + seq![0x22u8] + esc_bytes(str_bytes(s@)) + seq![0x22u8],
{
    out.push(0x22);
    write_escaped(s.as_str().as_bytes(), out);
    out.push(0x22);
    proof {
        assert(out@ =~= old(out)@ + seq![0x22u8] + esc_bytes(str_bytes(s@)) + seq![0x22u8]);
    }
}

/// Appends one object entry, `"key":value`.
fn write_entry(e: &(String, JsonValue), out: &mut Vec<u8>)
    ensures
        final(out)@ == old(out)@ + canon_entry(*e),
    decreases *e,
{
    write_quoted(&e.0, out);
    out.push(0x3a);
    write_canon(&e.1, out);
    proof {
        assert(out@ =~= old(out)@ + canon_entry(*e));
    }
}

/// Appends the canonical serialization of `v`.
#[verifier::loop_isolation(false)]
pub fn write_canon(v: &JsonValue, out: &mut Vec<u8>)
    ensures
        final(out)@ == old(out)@ + canon_bytes(*v),
    decreases *v,
{
    match v {
        JsonValue::Null => {
            out.push(0x6e);
            out.push(0x75);
            out.push(0x6c);
            out.push(0x6c);
            proof {
                assert(out@ =~= old(out)@ + canon_bytes(*v));
            }
        },
        JsonValue::Bool(b) => {
            if *b {
                out.push(0x74);
                out.push(0x72);
                out.push(0x75);
                out.push(0x65);
            } else {
                out.push(0x66);
                out.push(0x61);
                out.push(0x6c);
                out.push(0x73);
                out.push(0x65);
            }
            proof {
                assert(out@ =~= old(out)@ + canon_bytes(*v));
            }
        },
        JsonValue::Int(n) => {
            if *n >= 0 {
                write_u64(*n as u64, out);
            } else {
                out.push(0x2d);
                let mag: u64 = if *n == i64::MIN {
                    9223372036854775808u64
                } else {
                    (-*n) as u64
                };
                proof {
                    assert(mag as nat == (-(*n as int)) as nat);
                }
                write_u64(mag, out);
                proof {
                    assert(out@ =~= old(out)@ + canon_bytes(*v));
                }
            }
        },
        JsonValue::UInt(n) => {
            write_u64(*n, out);
        },
        JsonValue::Str(s) => {
            write_quoted(s, out);
            proof {
                assert(out@ =~= old(out)@ + canon_bytes(*v));
            }
        },
        JsonValue::Arr(elems) => {
            out.push(0x5b);
            let mut i: usize = 0;
            while i < elems.len()
                invariant
                    i <= elems@.len(),
                    out@ == old(out)@ + seq![0x5bu8] + canon_elems(elems@.take(i as int)),
                decreases elems@.len() - i,
            {
                if i > 0 {
                    out.push(0x2c);
                }
                write_canon(&elems[i], out);
                proof {
                    assert(elems@.take(i + 1).drop_last() =~= elems@.take(i as int));
                    assert(elems@.take(i + 1).last() == elems@[i as int]);
                    if i == 0 {
                        assert(canon_elems(elems@.take(1)) == canon_bytes(elems@[0]));
                    }
                    assert(out@ =~= old(out)@ + seq![0x5bu8] + canon_elems(elems@.take(i + 1)));
                }
                i = i + 1;
            }
            out.push(0x5d);
            proof {
                assert(elems@.take(elems@.len() as int) =~= elems@);
                assert(out@ =~= old(out)@ + canon_bytes(*v));
            }
        },
        JsonValue::Obj(entries) => {
            out.push(0x7b);
            let mut i: usize = 0;
            while i < entries.len()
                invariant
                    i <= entries@.len(),
                    out@ == old(out)@ + seq![0x7bu8] + canon_entries(entries@.take(i as int)),
                decreases entries@.len() - i,
            {
                if i > 0 {
                    out.push(0x2c);
                }
                write_entry(&entries[i], out);
                proof {
                    assert(entries@.take(i + 1).drop_last() =~= entries@.take(i as int));
                    assert(entries@.take(i + 1).last() == entries@[i as int]);
                    if i == 0 {
                        assert(canon_entries(entries@.take(1)) == canon_entry(entries@[0]));
                    }
                    assert(out@ =~= old(out)@ + seq![0x7bu8] + canon_entries(entries@.take(i + 1)));
                }
                i = i + 1;
            }
            out.push(0x7d);
            proof {
                assert(entries@.take(entries@.len() as int) =~= entries@);
                assert(out@ =~= old(out)@ + canon_bytes(*v));
            }
        },
    }
}

/// The canonical serialization of `v`, as a fresh byte vector.
pub fn to_canon_bytes(v: &JsonValue) -> (r: Vec<u8>)
    ensures
        r@ == canon_bytes(*v),
{
    let mut out: Vec<u8> = Vec::new();
    write_canon(v, &mut out);
    out
}

/// The key bytes of an object entry.
pub open spec fn entry_key(e: (String, JsonValue)) -> Seq<u8> {
    str_bytes(e.0@)
}

/// Entries are strictly ascending by key.
pub open spec fn entries_sorted(es: Seq<(String, JsonValue)>) -> bool {
    forall|i: int, j: int|
        0 <= i < j < es.len() ==> lex_lt(entry_key(#[trigger] es[i]), entry_key(#[trigger] es[j]))
}

/// Where an entry lands when inserted in key order; an entry with the same
/// key is replaced.
pub open spec fn insert_entry(es: Seq<(String, JsonValue)>, e: (String, JsonValue)) -> Seq<
    (String, JsonValue),
>
    decreases es.len(),
{
    if es.len() == 0 {
        seq![e]
    } else if lex_lt(entry_key(e), entry_key(es[0])) {
        seq![e] + es
    } else if entry_key(e) == entry_key(es[0]) {
        seq![e] + es.drop_first()
    } else {
        seq![es[0]] + insert_entry(es.drop_first(), e)
    }
}

/// The order is irreflexive and asymmetric.
pub proof fn lemma_lex_asym(a: Seq<u8>, b: Seq<u8>)
    requires
        lex_lt(a, b),
    ensures
        !lex_lt(b, a),
        a != b,
    decreases a.len(),
{
    if b.len() == 0 {
    } else if a.len() == 0 {
    } else if a[0] == b[0] {
        lemma_lex_asym(a.drop_first(), b.drop_first());
        assert(a != b) by {
            if a == b {
                assert(a.drop_first() =~= b.drop_first());
            }
        }
    }
}

/// Any two byte strings are ordered one way, the other, or equal.
pub proof fn lemma_lex_total(a: Seq<u8>, b: Seq<u8>)
    ensures
        lex_lt(a, b) || lex_lt(b, a) || a == b,
    decreases a.len(),
{
    if a.len() == 0 || b.len() == 0 {
        if a.len() == b.len() {
            assert(a =~= b);
        }
    } else if a[0] == b[0] {
        lemma_lex_total(a.drop_first(), b.drop_first());
        if a.drop_first() == b.drop_first() {
            assert(a =~= b) by {
                assert(a == seq![a[0]] + a.drop_first());
                assert(b == seq![b[0]] + b.drop_first());
            }
        }
    }
}

/// The order is transitive.
pub proof fn lemma_lex_trans(a: Seq<u8>, b: Seq<u8>, c: Seq<u8>)
    requires
        lex_lt(a, b),
        lex_lt(b, c),
    ensures
        lex_lt(a, c),
    decreases a.len(),
{
    if a.len() == 0 {
    } else if b.len() == 0 {
    } else if c.len() == 0 {
    } else {
        if a[0] == b[0] && b[0] == c[0] {
            lemma_lex_trans(a.drop_first(), b.drop_first(), c.drop_first());
        }
    }
}

/// `insert_entry` at the position the executable search finds: the first
/// index whose key is not below the new entry's key.
proof fn lemma_insert_entry_at(es: Seq<(String, JsonValue)>, e: (String, JsonValue), idx: int)
    requires
        0 <= idx <= es.len(),
        forall|j: int| 0 <= j < idx ==> lex_lt(entry_key(#[trigger] es[j]), entry_key(e)),
        idx < es.len() ==> !lex_lt(entry_key(es[idx]), entry_key(e)),
    ensures
        insert_entry(es, e) == if idx < es.len() && entry_key(es[idx]) == entry_key(e) {
            es.take(idx) + seq![e] + es.skip(idx + 1)
        } else {
            es.take(idx) + seq![e] + es.skip(idx)
        },
    decreases idx,
{
    if idx == 0 {
        if es.len() == 0 {
            assert(insert_entry(es, e) =~= es.take(0) + seq![e] + es.skip(0));
        } else if entry_key(es[0]) == entry_key(e) {
            assert(insert_entry(es, e) == seq![e] + es.drop_first());
            assert(seq![e] + es.drop_first() =~= es.take(0) + seq![e] + es.skip(1));
        } else {
            lemma_lex_total(entry_key(e), entry_key(es[0]));
            assert(lex_lt(entry_key(e), entry_key(es[0])));
            assert(seq![e] + es =~= es.take(0) + seq![e] + es.skip(0));
        }
    } else {
        lemma_lex_asym(entry_key(es[0]), entry_key(e));
        let tail = es.drop_first();
        assert(forall|j: int| 0 <= j < idx - 1 ==> #[trigger] tail[j] == es[j + 1]);
        lemma_insert_entry_at(tail, e, idx - 1);
        if idx < es.len() && entry_key(es[idx]) == entry_key(e) {
            assert(tail[idx - 1] == es[idx]);
            assert(seq![es[0]] + (tail.take(idx - 1) + seq![e] + tail.skip(idx)) =~= es.take(idx)
                + seq![e] + es.skip(idx + 1));
        } else {
            assert(seq![es[0]] + (tail.take(idx - 1) + seq![e] + tail.skip(idx - 1)) =~= es.take(
                idx,
            ) + seq![e] + es.skip(idx));
        }
    }
}

/// Inserts `value` under `key`, keeping entries in strictly ascending key
/// order; an entry already under `key` is replaced.
pub fn obj_insert(entries: &mut Vec<(String, JsonValue)>, key: String, value: JsonValue)
    ensures
        final(entries)@ == insert_entry(old(entries)@, (key, value)),
        entries_sorted(old(entries)@) ==> entries_sorted(final(entries)@),
        (entries_sorted(old(entries)@) && (forall|i: int|
            0 <= i < old(entries)@.len() ==> json_wf(#[trigger] old(entries)@[i].1)) && json_wf(
            value,
        )) ==> json_wf(JsonValue::Obj(*final(entries))),
{
    let ghost e = (key, value);
    let ghost es0 = entries@;
    let kb = key.as_str().as_bytes();
    let mut idx: usize = 0;
    loop
        invariant
            idx <= entries@.len(),
            entries@ == es0,
            kb@ == entry_key(e),
            key == e.0,
            value == e.1,
            forall|j: int| 0 <= j < idx ==> lex_lt(entry_key(#[trigger] es0[j]), entry_key(e)),
        ensures
            idx <= es0.len(),
            forall|j: int| 0 <= j < idx ==> lex_lt(entry_key(#[trigger] es0[j]), entry_key(e)),
            idx < es0.len() ==> !lex_lt(entry_key(es0[idx as int]), entry_key(e)),
        decreases entries@.len() - idx,
    {
        if idx == entries.len() {
            break;
        }
        if !bytes_lt(entries[idx].0.as_str().as_bytes(), kb) {
            break;
        }
        idx = idx + 1;
    }
    proof {
        lemma_insert_entry_at(es0, e, idx as int);
    }
    if idx < entries.len() && bytes_eq(entries[idx].0.as_str().as_bytes(), kb) {
        let _old_entry = entries.remove(idx);
        entries.insert(idx, (key, value));
        proof {
            assert(entries@ =~= es0.take(idx as int) + seq![e] + es0.skip(idx as int + 1));
        }
    } else {
        proof {
            if idx < es0.len() {
                lemma_lex_total(entry_key(e), entry_key(es0[idx as int]));
            }
        }
        entries.insert(idx, (key, value));
        proof {
            assert(entries@ =~= es0.take(idx as int) + seq![e] + es0.skip(idx as int));
        }
    }
    proof {
        let es1 = entries@;
        if entries_sorted(es0) {
            assert forall|i: int, j: int| 0 <= i < j < es1.len() implies lex_lt(
                entry_key(es1[i]),
                entry_key(es1[j]),
            ) by {
                lemma_obj_insert_sorted_pair(es0, e, idx as int, es1, i, j);
            }
        }
    }
}

/// One ordered pair of the freshly inserted entry sequence.
proof fn lemma_obj_insert_sorted_pair(
    es0: Seq<(String, JsonValue)>,
    e: (String, JsonValue),
    idx: int,
    es1: Seq<(String, JsonValue)>,
    i: int,
    j: int,
)
    requires
        entries_sorted(es0),
        0 <= idx <= es0.len(),
        forall|k: int| 0 <= k < idx ==> lex_lt(entry_key(#[trigger] es0[k]), entry_key(e)),
        idx < es0.len() ==> !lex_lt(entry_key(es0[idx]), entry_key(e)),
        es1 == if idx < es0.len() && entry_key(es0[idx]) == entry_key(e) {
            es0.take(idx) + seq![e] + es0.skip(idx + 1)
        } else {
            es0.take(idx) + seq![e] + es0.skip(idx)
        },
        0 <= i < j < es1.len(),
    ensures
        lex_lt(entry_key(es1[i]), entry_key(es1[j])),
{
    let replacing = idx < es0.len() && entry_key(es0[idx]) == entry_key(e);
    if idx < es0.len() && !replacing {
        lemma_lex_total(entry_key(e), entry_key(es0[idx]));
        assert(lex_lt(entry_key(e), entry_key(es0[idx])));
    }
    if i == idx {
        if !replacing && j > idx && idx < es0.len() {
            let oj = es1[j];
            assert(oj == es0[j - 1]);
            if j - 1 > idx {
                lemma_lex_trans(entry_key(e), entry_key(es0[idx]), entry_key(es0[j - 1]));
            }
        }
    } else if j == idx {
    } else if i < idx && j > idx {
        if replacing {
            assert(es1[i] == es0[i] && es1[j] == es0[j]);
        } else {
            assert(es1[i] == es0[i] && es1[j] == es0[j - 1]);
        }
    }
}

/// True when some entry holds the given key.
pub open spec fn entries_has_key(es: Seq<(String, JsonValue)>, key: Seq<u8>) -> bool {
    exists|i: int| 0 <= i < es.len() && entry_key(#[trigger] es[i]) == key
}

/// The first entry under the given key, if any.
pub open spec fn spec_obj_get(es: Seq<(String, JsonValue)>, key: Seq<u8>) -> Option<JsonValue>
    decreases es.len(),
{
    if es.len() == 0 {
        Option::None
    } else if entry_key(es[0]) == key {
        Option::Some(es[0].1)
    } else {
        spec_obj_get(es.drop_first(), key)
    }
}

/// Skipping entries that miss the key does not change the lookup.
proof fn lemma_obj_get_skip(es: Seq<(String, JsonValue)>, key: Seq<u8>, i: int)
    requires
        0 <= i <= es.len(),
        forall|j: int| 0 <= j < i ==> entry_key(#[trigger] es[j]) != key,
    ensures
        spec_obj_get(es, key) == spec_obj_get(es.skip(i), key),
    decreases i,
{
    if i > 0 {
        lemma_obj_get_skip(es, key, i - 1);
        let tail = es.skip(i - 1);
        assert(tail[0] == es[i - 1]);
        assert(entry_key(tail[0]) != key);
        assert(tail.drop_first() =~= es.skip(i));
        assert(spec_obj_get(tail, key) == spec_obj_get(tail.drop_first(), key));
    } else {
        assert(es.skip(0) =~= es);
    }
}

/// Looks a key up among object entries; the first match wins.
pub fn obj_get<'a>(entries: &'a Vec<(String, JsonValue)>, key: &str) -> (r: Option<
    &'a JsonValue,
>)
    ensures
        match r {
            Some(val) => spec_obj_get(entries@, str_bytes(key@)) == Option::Some(*val),
            None => spec_obj_get(entries@, str_bytes(key@)) is None,
        },
        r is Some == entries_has_key(entries@, str_bytes(key@)),
{
    let kb = key.as_bytes();
    let mut i: usize = 0;
    while i < entries.len()
        invariant
            i <= entries@.len(),
            kb@ == str_bytes(key@),
            forall|j: int| 0 <= j < i ==> entry_key(#[trigger] entries@[j]) != str_bytes(key@),
        decreases entries@.len() - i,
    {
        if bytes_eq(entries[i].0.as_str().as_bytes(), kb) {
            proof {
                lemma_obj_get_skip(entries@, str_bytes(key@), i as int);
                assert(entries@.skip(i as int)[0] == entries@[i as int]);
            }
            return Some(&entries[i].1);
        }
        i = i + 1;
    }
    proof {
        lemma_obj_get_skip(entries@, str_bytes(key@), entries@.len() as int);
        if entries_has_key(entries@, str_bytes(key@)) {
            let j = choose|j: int|
                0 <= j < entries@.len() && entry_key(#[trigger] entries@[j]) == str_bytes(key@);
        }
    }
    None
}

/// The integer a JSON number holds, where it fits a signed 64-bit value.
pub open spec fn spec_as_i64(v: JsonValue) -> Option<i64> {
    match v {
        JsonValue::Int(n) => Option::Some(n),
        JsonValue::UInt(u) => if u <= 0x7fff_ffff_ffff_ffffu64 {
            Option::Some(u as i64)
        } else {
            Option::None
        },
        _ => Option::None,
    }
}

/// The character for one decimal digit.
pub open spec fn digit_char(n: nat) -> char
    recommends
        n < 10,
{
    if n == 0 {
        '0'
    } else if n == 1 {
        '1'
    } else if n == 2 {
        '2'
    } else if n == 3 {
        '3'
    } else if n == 4 {
        '4'
    } else if n == 5 {
        '5'
    } else if n == 6 {
        '6'
    } else if n == 7 {
        '7'
    } else if n == 8 {
        '8'
    } else {
        '9'
    }
}

/// Shortest decimal rendering of an unsigned integer, as characters.
pub open spec fn dec_chars(n: nat) -> Seq<char>
    decreases n,
{
    if n < 10 {
        seq![digit_char(n)]
    } else {
        dec_chars(n / 10) + seq![digit_char(n % 10)]
    }
}

/// Decimal rendering of a signed integer, with a leading minus where it is
/// negative.
pub open spec fn int_chars(n: int) -> Seq<char> {
    if n >= 0 {
        dec_chars(n as nat)
    } else {
        seq!['-'] + dec_chars((-n) as nat)
    }
}

/// Appends one decimal digit.
fn push_digit_char(out: &mut String, d: u64)
    requires
        d < 10,
    ensures
        final(out)@ == old(out)@ + seq![digit_char(d as nat)],
{
    if d == 0 {
        out.append("0");
        proof {
            reveal_strlit("0");
            assert(out@ =~= old(out)@ + seq![digit_char(d as nat)]);
        }
    } else if d == 1 {
        out.append("1");
        proof {
            reveal_strlit("1");
            assert(out@ =~= old(out)@ + seq![digit_char(d as nat)]);
        }
    } else if d == 2 {
        out.append("2");
        proof {
            reveal_strlit("2");
            assert(out@ =~= old(out)@ + seq![digit_char(d as nat)]);
        }
    } else if d == 3 {
        out.append("3");
        proof {
            reveal_strlit("3");
            assert(out@ =~= old(out)@ + seq![digit_char(d as nat)]);
        }
    } else if d == 4 {
        out.append("4");
        proof {
            reveal_strlit("4");
            assert(out@ =~= old(out)@ + seq![digit_char(d as nat)]);
        }
    } else if d == 5 {
        out.append("5");
        proof {
            reveal_strlit("5");
            assert(out@ =~= old(out)@ + seq![digit_char(d as nat)]);
        }
    } else if d == 6 {
        out.append("6");
        proof {
            reveal_strlit("6");
            assert(out@ =~= old(out)@ + seq![digit_char(d as nat)]);
        }
    } else if d == 7 {
        out.append("7");
        proof {
            reveal_strlit("7");
            assert(out@ =~= old(out)@ + seq![digit_char(d as nat)]);
        }
    } else if d == 8 {
        out.append("8");
        proof {
            reveal_strlit("8");
            assert(out@ =~= old(out)@ + seq![digit_char(d as nat)]);
        }
    } else {
        out.append("9");
        proof {
            reveal_strlit("9");
            assert(out@ =~= old(out)@ + seq![digit_char(d as nat)]);
        }
    }
}

/// Appends the shortest decimal rendering of `n`, as characters.
fn push_u64_chars(n: u64, out: &mut String)
    ensures
        final(out)@ == old(out)@ + dec_chars(n as nat),
    decreases n,
{
    if n < 10 {
        push_digit_char(out, n);
    } else {
        push_u64_chars(n / 10, out);
        push_digit_char(out, n % 10);
    }
}

/// Stringifies a primary key value the way the write path expects: strings
/// stay as they are, integers are decimal-encoded, everything else is
/// refused.
pub fn pk_json_to_string(pk: &JsonValue) -> (r: Option<String>)
    ensures
        match r {
            Some(s) => match *pk {
                JsonValue::Str(p) => s@ == p@,
                JsonValue::Int(n) => s@ == int_chars(n as int),
                JsonValue::UInt(u) => s@ == dec_chars(u as nat),
                _ => false,
            },
            None => !(*pk is Str || *pk is Int || *pk is UInt),
        },
{
    match pk {
        JsonValue::Str(s) => Some(s.clone()),
        JsonValue::Int(n) => {
            let mut out = String::new();
            if *n < 0 {
                out.append("-");
                proof {
                    reveal_strlit("-");
                }
                let mag: u64 = if *n == i64::MIN {
                    9223372036854775808u64
                } else {
                    (-*n) as u64
                };
                proof {
                    assert(mag as nat == (-(*n as int)) as nat);
                }
                push_u64_chars(mag, &mut out);
                proof {
                    assert(out@ =~= int_chars(*n as int));
                }
            } else {
                push_u64_chars(*n as u64, &mut out);
            }
            Some(out)
        },
        JsonValue::UInt(u) => {
            let mut out = String::new();
            push_u64_chars(*u, &mut out);
            Some(out)
        },
        _ => None,
    }
}

/// Reads a JSON number as a signed 64-bit integer.
pub fn as_i64(v: &JsonValue) -> (r: Option<i64>)
    ensures
        r == spec_as_i64(*v),
{
    match v {
        JsonValue::Int(n) => Some(*n),
        JsonValue::UInt(u) => {
            if *u <= 0x7fff_ffff_ffff_ffffu64 {
                Some(*u as i64)
            } else {
                None
            }
        },
        _ => None,
    }
}

} // verus!
