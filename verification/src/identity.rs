//! Identity hashing: the bytes each value writes into a
//! `std::collections::hash_map::DefaultHasher`, such that identical values
//! write identical bytes.
//!
//! Maps are hashed without regard to entry order: each entry is hashed by an
//! independent hasher, and the entry hashes are combined by a wrapping sum
//! and by an exclusive or of their rotations, both of which ignore order.

use std::collections::hash_map::DefaultHasher;
use std::hash::Hasher;

use vstd::prelude::*;
use vstd::std_specs::hash::DefaultHasherAdditionalSpecFns;
use vstd::utf8::encode_utf8;

use crate::float_identity::f64_is_zero;
use crate::json_value::{
    distinct_member_keys,
    json_lookup,
    json_member_same,
    json_same,
    json_wf,
    lemma_all_wf,
    lemma_elements_same,
    lemma_lookup_index,
    lemma_members_found,
    lemma_members_wf,
    lemma_model_kind,
    JsonModel,
    JsonNumber,
    JsonValue,
};
use crate::string_map::{distinct_keys, has_entry, string_map_same, StringMapModel, StringMapValue};

verus! {

/// Little-endian bytes of a 64-bit word.
pub open spec fn u64_bytes(x: u64) -> Seq<u8> {
    seq![
        x as u8,
        (x >> 8) as u8,
        (x >> 16) as u8,
        (x >> 24) as u8,
        (x >> 32) as u8,
        (x >> 40) as u8,
        (x >> 48) as u8,
        (x >> 56) as u8,
    ]
}

/// Little-endian bytes of a 16-bit word.
pub open spec fn u16_bytes(x: u16) -> Seq<u8> {
    seq![x as u8, (x >> 8) as u8]
}

/// Little-endian bytes of a 32-bit word.
pub open spec fn u32_bytes(x: u32) -> Seq<u8> {
    seq![x as u8, (x >> 8) as u8, (x >> 16) as u8, (x >> 24) as u8]
}

/// Writes the little-endian bytes of a 16-bit word.
pub fn write_u16(state: &mut DefaultHasher, x: u16)
    ensures
        final(state)@ == old(state)@.push(u16_bytes(x)),
{
    let bytes: Vec<u8> = vec![x as u8, (x >> 8) as u8];
    assert(bytes@ =~= u16_bytes(x));
    state.write(bytes.as_slice());
}

/// Writes the little-endian bytes of a 32-bit word.
pub fn write_u32(state: &mut DefaultHasher, x: u32)
    ensures
        final(state)@ == old(state)@.push(u32_bytes(x)),
{
    let bytes: Vec<u8> = vec![x as u8, (x >> 8) as u8, (x >> 16) as u8, (x >> 24) as u8];
    assert(bytes@ =~= u32_bytes(x));
    state.write(bytes.as_slice());
}

/// Writes of a text: its UTF-8 bytes, then a terminator byte, as `str`
/// hashing does.
pub open spec fn text_writes(t: Seq<char>) -> Seq<Seq<u8>> {
    seq![encode_utf8(t), seq![0xffu8]]
}

/// Writes the little-endian bytes of `x`.
pub fn write_u64(state: &mut DefaultHasher, x: u64)
    ensures
        final(state)@ == old(state)@.push(u64_bytes(x)),
{
    let bytes: Vec<u8> = vec![
        x as u8,
        (x >> 8) as u8,
        (x >> 16) as u8,
        (x >> 24) as u8,
        (x >> 32) as u8,
        (x >> 40) as u8,
        (x >> 48) as u8,
        (x >> 56) as u8,
    ];
    assert(bytes@ =~= u64_bytes(x));
    state.write(bytes.as_slice());
}

/// Writes one tag byte.
pub fn write_tag(state: &mut DefaultHasher, tag: u8)
    ensures
        final(state)@ == old(state)@.push(seq![tag]),
{
    let bytes: Vec<u8> = vec![tag];
    assert(bytes@ =~= seq![tag]);
    state.write(bytes.as_slice());
}

/// Writes a text: its UTF-8 bytes, then a terminator byte.
pub fn write_text(state: &mut DefaultHasher, text: &str)
    ensures
        final(state)@ == old(state)@ + text_writes(text@),
{
    state.write(text.as_bytes());
    write_tag(state, 0xff);
    assert(final(state)@ =~= old(state)@ + text_writes(text@));
}

/// The 64-bit word rotated left by 17 bits.
pub open spec fn rot17(h: u64) -> u64 {
    (h << 17) | (h >> 47)
}

/// Wrapping 64-bit addition.
pub open spec fn wrap_add(a: u64, b: u64) -> u64 {
    if a + b > u64::MAX {
        (a + b - 0x1_0000_0000_0000_0000) as u64
    } else {
        (a + b) as u64
    }
}

/// Entry hashes of a map, each with the key of its entry.
pub type KeyedHashes = Seq<(Seq<char>, u64)>;

/// Wrapping sum of the entry hashes.
pub open spec fn keyed_sum(s: KeyedHashes) -> u64
    decreases s.len(),
{
    if s.len() == 0 {
        0
    } else {
        wrap_add(keyed_sum(s.drop_last()), s.last().1)
    }
}

/// Exclusive or of the entry hashes, each rotated left by 17 bits.
pub open spec fn keyed_xor(s: KeyedHashes) -> u64
    decreases s.len(),
{
    if s.len() == 0 {
        0
    } else {
        keyed_xor(s.drop_last()) ^ rot17(s.last().1)
    }
}

/// No two entry hashes belong to the same key.
pub open spec fn distinct_hash_keys(s: KeyedHashes) -> bool {
    forall|i: int, j: int| 0 <= i < s.len() && 0 <= j < s.len() && i != j ==> s[i].0 != s[j].0
}

/// `y` holds the pair `p`.
pub open spec fn holds_pair(y: KeyedHashes, p: (Seq<char>, u64)) -> bool {
    exists|k: int| 0 <= k < y.len() && y[k] == p
}

/// Writes of the order-independent aggregate of a map's entry hashes.
pub open spec fn aggregate_writes(s: KeyedHashes) -> Seq<Seq<u8>> {
    seq![u64_bytes(keyed_sum(s)), u64_bytes(keyed_xor(s))]
}

proof fn lemma_xor_swap(a: u64, b: u64, c: u64)
    by (bit_vector)
    ensures
        (a ^ b) ^ c == (a ^ c) ^ b,
{
}

/// Taking one entry hash out of the aggregate and adding it back gives the
/// aggregate.
proof fn lemma_keyed_remove(y: KeyedHashes, k: int)
    requires
        0 <= k < y.len(),
    ensures
        keyed_sum(y) == wrap_add(keyed_sum(y.remove(k)), y[k].1),
        keyed_xor(y) == keyed_xor(y.remove(k)) ^ rot17(y[k].1),
    decreases y.len(),
{
    if k == y.len() - 1 {
        assert(y.remove(k) =~= y.drop_last());
    } else {
        let rest = y.drop_last();
        lemma_keyed_remove(rest, k);
        assert(rest.remove(k) =~= y.remove(k).drop_last());
        assert(y.remove(k).last() == y.last());
        lemma_xor_swap(keyed_xor(rest.remove(k)), rot17(y[k].1), rot17(y.last().1));
    }
}

/// Two lists of entry hashes with distinct keys that hold the same pairs
/// have the same aggregate, whatever their order.
pub proof fn lemma_keyed_matched(x: KeyedHashes, y: KeyedHashes)
    requires
        x.len() == y.len(),
        distinct_hash_keys(x),
        distinct_hash_keys(y),
        forall|i: int| 0 <= i < x.len() ==> #[trigger] holds_pair(y, x[i]),
    ensures
        keyed_sum(x) == keyed_sum(y),
        keyed_xor(x) == keyed_xor(y),
    decreases x.len(),
{
    if x.len() > 0 {
        let n = x.len() - 1;
        let e = x[n];
        assert(x[n] == e);
        let k = choose|k: int| 0 <= k < y.len() && y[k] == x[n];
        let xs = x.drop_last();
        let ys = y.remove(k);
        assert(holds_pair(y, x[n]));
        assert forall|i: int| 0 <= i < xs.len() implies #[trigger] holds_pair(ys, xs[i]) by {
            assert(x[i] == xs[i]);
            assert(holds_pair(y, x[i]));
            let j = choose|j: int| 0 <= j < y.len() && y[j] == x[i];
            assert(x[i].0 != x[n].0);
            assert(j != k);
            if j < k {
                assert(ys[j] == y[j]);
            } else {
                assert(ys[j - 1] == y[j]);
            }
        }
        assert forall|i: int, j: int| 0 <= i < ys.len() && 0 <= j < ys.len() && i != j implies ys[i].0 != ys[j].0 by {
            let a = if i < k { i } else { i + 1 };
            let b = if j < k { j } else { j + 1 };
            assert(ys[i] == y[a] && ys[j] == y[b]);
        }
        lemma_keyed_matched(xs, ys);
        lemma_keyed_remove(y, k);
    }
}

/// Hash of one string-map entry, computed by an independent hasher.
pub open spec fn string_entry_hash(e: (Seq<char>, Seq<char>)) -> u64 {
    DefaultHasher::spec_finish(text_writes(e.0) + text_writes(e.1))
}

/// Entry hashes of a string map, keyed by entry key, in storage order.
pub open spec fn string_map_hashes(m: StringMapModel) -> KeyedHashes {
    Seq::new(m.len(), |i: int| (m[i].0, string_entry_hash(m[i])))
}

/// Writes of a string map: its size, then the order-independent aggregate
/// of its entry hashes.
pub open spec fn string_map_writes(m: StringMapModel) -> Seq<Seq<u8>> {
    seq![u64_bytes(m.len() as u64)] + aggregate_writes(string_map_hashes(m))
}

/// Hashes a string map without regard to entry order.
pub fn hash_string_map(value: &StringMapValue, state: &mut DefaultHasher)
    ensures
        final(state)@ == old(state)@ + string_map_writes(value@),
{
    let entries = value.entries();
    let ghost m = value@;
    let ghost hashes = string_map_hashes(m);
    let n = entries.len();
    write_u64(state, n as u64);
    let mut sum: u64 = 0;
    let mut xor: u64 = 0;
    for i in 0..n
        invariant
            n == entries@.len(),
            m == crate::string_map::entries_model(entries@),
            hashes == string_map_hashes(m),
            sum == keyed_sum(hashes.take(i as int)),
            xor == keyed_xor(hashes.take(i as int)),
    {
        let mut entry = DefaultHasher::new();
        write_text(&mut entry, entries[i].0.as_str());
        write_text(&mut entry, entries[i].1.as_str());
        let h = entry.finish();
        assert(m[i as int] == (entries@[i as int].0@, entries@[i as int].1@));
        assert(entry@ =~= text_writes(m[i as int].0) + text_writes(m[i as int].1));
        assert(hashes.take(i + 1).drop_last() =~= hashes.take(i as int));
        assert(hashes.take(i + 1).last() == hashes[i as int]);
        sum = sum.wrapping_add(h);
        xor = xor ^ ((h << 17) | (h >> 47));
    }
    assert(hashes.take(n as int) =~= hashes);
    write_u64(state, sum);
    write_u64(state, xor);
    assert(final(state)@ =~= old(state)@ + string_map_writes(m));
}

/// Identical string maps write identical bytes: the hash ignores entry
/// order.
pub proof fn lemma_string_map_hash_consistent(a: StringMapModel, b: StringMapModel)
    requires
        distinct_keys(a),
        distinct_keys(b),
        string_map_same(a, b),
    ensures
        string_map_writes(a) == string_map_writes(b),
{
    let x = string_map_hashes(a);
    let y = string_map_hashes(b);
    assert forall|i: int| 0 <= i < x.len() implies #[trigger] holds_pair(y, x[i]) by {
        assert(has_entry(b, a[i].0, a[i].1));
        let k = choose|k: int| 0 <= k < b.len() && b[k] == (a[i].0, a[i].1);
        assert(y[k] == x[i]);
    }
    lemma_keyed_matched(x, y);
}

/// Word a JSON number hashes as: an integer by its value, a float by its
/// bits, the two zeros sharing the bits of `+0.0`.
pub open spec fn json_number_word(n: JsonNumber) -> u64 {
    match n {
        JsonNumber::PosInt(i) => i,
        JsonNumber::NegInt(i) => i as u64,
        JsonNumber::Float(bits) => if f64_is_zero(bits) {
            0
        } else {
            bits
        },
    }
}

/// Writes of a JSON document: a kind tag, then the scalar, or the length
/// and elements of an array in order, or the size of an object and the
/// order-independent aggregate of its member hashes.
pub open spec fn json_writes(a: JsonModel) -> Seq<Seq<u8>>
    decreases a, 1int,
{
    match a {
        JsonModel::Null => seq![seq![0u8]],
        JsonModel::Bool(b) => seq![seq![1u8], seq![if b { 1u8 } else { 0u8 }]],
        JsonModel::Number(n) => seq![seq![2u8], u64_bytes(json_number_word(n))],
        JsonModel::String(t) => seq![seq![3u8]] + text_writes(t),
        JsonModel::Array(x) => seq![seq![4u8], u64_bytes(x.len() as u64)] + json_elements_writes(x),
        JsonModel::Object(x) => seq![seq![5u8], u64_bytes(x.len() as u64)] + aggregate_writes(
            json_member_hashes(x),
        ),
    }
}

/// Writes of the elements of an array, in order.
pub open spec fn json_elements_writes(x: Seq<JsonModel>) -> Seq<Seq<u8>>
    decreases x, 0int,
{
    if x.len() == 0 {
        seq![]
    } else {
        json_elements_writes(x.drop_last()) + json_writes(x.last())
    }
}

/// Hashes of the members of an object, each computed by an independent
/// hasher from the member's key and value, keyed by member key.
pub open spec fn json_member_hashes(x: Seq<(Seq<char>, JsonModel)>) -> KeyedHashes
    decreases x, 0int,
{
    if x.len() == 0 {
        seq![]
    } else {
        json_member_hashes(x.drop_last()).push(
            (x.last().0, DefaultHasher::spec_finish(text_writes(x.last().0) + json_writes(x.last().1))),
        )
    }
}

/// Hash of one object member.
pub open spec fn json_member_hash(m: (Seq<char>, JsonModel)) -> u64 {
    DefaultHasher::spec_finish(text_writes(m.0) + json_writes(m.1))
}

/// The member hashes, index by index.
proof fn lemma_member_hashes_index(x: Seq<(Seq<char>, JsonModel)>)
    ensures
        json_member_hashes(x).len() == x.len(),
        forall|i: int| 0 <= i < x.len() ==> #[trigger] json_member_hashes(x)[i] == (x[i].0, json_member_hash(x[i])),
    decreases x.len(),
{
    if x.len() > 0 {
        lemma_member_hashes_index(x.drop_last());
    }
}

/// Arrays whose elements write the same bytes, index by index, write the
/// same bytes.
proof fn lemma_elements_writes_eq(x: Seq<JsonModel>, y: Seq<JsonModel>)
    requires
        x.len() == y.len(),
        forall|i: int| 0 <= i < x.len() ==> #[trigger] json_writes(x[i]) == json_writes(y[i]),
    ensures
        json_elements_writes(x) == json_elements_writes(y),
    decreases x.len(),
{
    if x.len() > 0 {
        let n = x.len() - 1;
        assert(json_writes(x[n]) == json_writes(y[n]));
        assert forall|i: int| 0 <= i < x.drop_last().len() implies #[trigger] json_writes(x.drop_last()[i])
            == json_writes(y.drop_last()[i]) by {
            assert(json_writes(x[i]) == json_writes(y[i]));
        }
        lemma_elements_writes_eq(x.drop_last(), y.drop_last());
    }
}

/// Hashes a JSON document: scalars by kind and value, arrays in order, and
/// objects without regard to member order.
pub fn hash_json(value: &JsonValue, state: &mut DefaultHasher)
    ensures
        final(state)@ == old(state)@ + json_writes(value@),
    decreases value,
{
    proof {
        lemma_model_kind(*value);
    }
    match value {
        JsonValue::Null => {
            write_tag(state, 0);
            assert(final(state)@ =~= old(state)@ + json_writes(value@));
        },
        JsonValue::Bool(b) => {
            write_tag(state, 1);
            write_tag(state, if *b { 1 } else { 0 });
            assert(final(state)@ =~= old(state)@ + json_writes(value@));
        },
        JsonValue::Number(n) => {
            write_tag(state, 2);
            let word: u64 = match n {
                JsonNumber::PosInt(i) => *i,
                JsonNumber::NegInt(i) => *i as u64,
                JsonNumber::Float(bits) => if *bits & 0x7fff_ffff_ffff_ffff == 0 {
                    0
                } else {
                    *bits
                },
            };
            write_u64(state, word);
            assert(final(state)@ =~= old(state)@ + json_writes(value@));
        },
        JsonValue::String(t) => {
            write_tag(state, 3);
            write_text(state, t.as_str());
            assert(final(state)@ =~= old(state)@ + json_writes(value@));
        },
        JsonValue::Array(x) => {
            let ghost xm = value@->Array_0;
            let ghost start = old(state)@;
            write_tag(state, 4);
            write_u64(state, x.len() as u64);
            let ghost head = state@;
            let n = x.len();
            for i in 0..n
                invariant
                    n == x@.len(),
                    xm.len() == n,
                    *value == JsonValue::Array(*x),
                    xm == value@->Array_0,
                    forall|j: int| 0 <= j < n ==> #[trigger] xm[j] == x@[j]@,
                    state@ == head + json_elements_writes(xm.take(i as int)),
            {
                proof {
                    assert(decreases_to!(*value => *x));
                    assert(decreases_to!(*x => x[i as int]));
                }
                hash_json(&x[i], state);
                proof {
                    assert(xm.take(i + 1).drop_last() =~= xm.take(i as int));
                    assert(xm.take(i + 1).last() == xm[i as int]);
                    assert(state@ =~= head + json_elements_writes(xm.take(i + 1)));
                }
            }
            assert(xm.take(n as int) =~= xm);
            assert(final(state)@ =~= start + json_writes(value@));
        },
        JsonValue::Object(members) => {
            let ghost xm = value@->Object_0;
            let ghost start = old(state)@;
            write_tag(state, 5);
            write_u64(state, members.len() as u64);
            let n = members.len();
            let mut sum: u64 = 0;
            let mut xor: u64 = 0;
            for i in 0..n
                invariant
                    n == members@.len(),
                    xm.len() == n,
                    *value == JsonValue::Object(*members),
                    xm == value@->Object_0,
                    forall|j: int| 0 <= j < n ==> #[trigger] xm[j] == (members@[j].0@, members@[j].1@),
                    sum == keyed_sum(json_member_hashes(xm.take(i as int))),
                    xor == keyed_xor(json_member_hashes(xm.take(i as int))),
            {
                proof {
                    assert(decreases_to!(*value => *members));
                    assert(decreases_to!(*members => members[i as int]));
                    assert(decreases_to!(members[i as int] => members[i as int].1));
                }
                let mut entry = DefaultHasher::new();
                write_text(&mut entry, members[i].0.as_str());
                hash_json(&members[i].1, &mut entry);
                let h = entry.finish();
                proof {
                    let pre = xm.take(i as int);
                    let cur = xm.take(i + 1);
                    assert(cur.drop_last() =~= pre);
                    assert(cur.last() == xm[i as int]);
                    assert(entry@ =~= text_writes(xm[i as int].0) + json_writes(xm[i as int].1));
                    let hs = json_member_hashes(pre);
                    assert(json_member_hashes(cur) == hs.push((xm[i as int].0, h)));
                    assert(hs.push((xm[i as int].0, h)).drop_last() =~= hs);
                }
                sum = sum.wrapping_add(h);
                xor = xor ^ ((h << 17) | (h >> 47));
            }
            assert(xm.take(n as int) =~= xm);
            write_u64(state, sum);
            write_u64(state, xor);
            assert(final(state)@ =~= start + json_writes(value@));
        },
    }
}

/// Identical well-formed JSON documents write identical bytes: arrays in
/// order, objects whatever their member order.
pub proof fn lemma_json_hash_consistent(a: JsonModel, b: JsonModel)
    requires
        json_wf(a),
        json_wf(b),
        json_same(a, b),
    ensures
        json_writes(a) == json_writes(b),
    decreases a,
{
    match (a, b) {
        (JsonModel::Array(x), JsonModel::Array(y)) => {
            lemma_elements_same(x, y);
            lemma_all_wf(x);
            lemma_all_wf(y);
            assert forall|i: int| 0 <= i < x.len() implies #[trigger] json_writes(x[i]) == json_writes(y[i]) by {
                assert(json_same(x[i], y[i]));
                assert(json_wf(x[i]) && json_wf(y[i]));
                lemma_json_hash_consistent(x[i], y[i]);
            }
            lemma_elements_writes_eq(x, y);
        },
        (JsonModel::Object(x), JsonModel::Object(y)) => {
            lemma_members_found(x, y);
            lemma_members_wf(x);
            lemma_members_wf(y);
            lemma_member_hashes_index(x);
            lemma_member_hashes_index(y);
            let hx = json_member_hashes(x);
            let hy = json_member_hashes(y);
            assert forall|i: int| 0 <= i < hx.len() implies #[trigger] holds_pair(hy, hx[i]) by {
                assert(json_member_same(x, y, i));
                lemma_lookup_index(y, x[i].0);
                let v = json_lookup(y, x[i].0).unwrap();
                let k = choose|k: int| 0 <= k < y.len() && #[trigger] y[k] == (x[i].0, v);
                assert(json_wf(x[i].1) && json_wf(y[k].1));
                lemma_json_hash_consistent(x[i].1, y[k].1);
                assert(hy[k] == hx[i]);
            }
            assert forall|i: int, j: int| 0 <= i < hx.len() && 0 <= j < hx.len() && i != j implies hx[i].0
                != hx[j].0 by {
                assert(x[i].0 != x[j].0);
            }
            assert forall|i: int, j: int| 0 <= i < hy.len() && 0 <= j < hy.len() && i != j implies hy[i].0
                != hy[j].0 by {
                assert(y[i].0 != y[j].0);
            }
            lemma_keyed_matched(hx, hy);
        },
        _ => {},
    }
}

} // verus!
