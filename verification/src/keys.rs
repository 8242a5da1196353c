//! Composite byte keys.
//!
//! Every record is stored under a key of the shape
//! `kind byte ++ primary field ++ 0x00 ++ fixed-width order fields`, so that
//! byte-lexicographic key order equals logical order: kind first, then
//! primary grouping, then the numeric order fields.  Primary fields must not
//! contain the `0x00` terminator; under that condition the mapping from
//! logical tuples to keys is injective and partitions occupy disjoint,
//! contiguous key ranges.

use vstd::prelude::*;

use vstd::string::{StrSliceExecFns, StringSliceAdditionalSpecFns};

use crate::order::{
    be8, bias64, has_prefix, lemma_be8_order, lemma_lex_common_prefix, lemma_lex_eqlen_heads,
    lex_less,
};

verus! {

/// Kind discriminant bytes: a closed, stable enumeration.
pub open spec fn kind_asset() -> u8 {
    0
}

pub open spec fn kind_quote() -> u8 {
    1
}

pub open spec fn kind_ticker() -> u8 {
    2
}

pub open spec fn kind_transaction() -> u8 {
    3
}

/// A primary field is usable as a key component when it contains no
/// terminator byte.
pub open spec fn valid_name(n: Seq<u8>) -> bool {
    forall|i: int| 0 <= i < n.len() ==> n[i] != 0
}

/// Partition prefix: kind byte, primary field, terminator.
pub open spec fn part_prefix(kind: u8, primary: Seq<u8>) -> Seq<u8> {
    seq![kind] + primary + seq![0u8]
}

/// Point key for records with no secondary order field (assets, tickers).
pub open spec fn point_key(kind: u8, primary: Seq<u8>) -> Seq<u8> {
    part_prefix(kind, primary)
}

/// Key for a quote: ticker partition, then biased big-endian timestamp,
/// then biased big-endian sequence id as disambiguator.
pub open spec fn quote_key(ticker: Seq<u8>, time: i64, seq_id: i64) -> Seq<u8> {
    part_prefix(kind_quote(), ticker) + be8(bias64(time)) + be8(bias64(seq_id))
}

/// High 64 bits of a 128-bit transaction id.
pub open spec fn id_hi(id: u128) -> u64 {
    (id >> 64) as u64
}

/// Low 64 bits of a 128-bit transaction id.
pub open spec fn id_lo(id: u128) -> u64 {
    id as u64
}

/// Key for a transaction: sort-prefix partition, then the 128-bit id in
/// big-endian order.
pub open spec fn txn_key(sort_prefix: Seq<u8>, id: u128) -> Seq<u8> {
    part_prefix(kind_transaction(), sort_prefix) + be8(id_hi(id)) + be8(id_lo(id))
}

/// Every quote key carries its partition prefix.
pub proof fn lemma_quote_key_has_prefix(ticker: Seq<u8>, time: i64, seq_id: i64)
    ensures
        has_prefix(quote_key(ticker, time, seq_id), part_prefix(kind_quote(), ticker)),
{
    let p = part_prefix(kind_quote(), ticker);
    let k = quote_key(ticker, time, seq_id);
    assert(k.subrange(0, p.len() as int) =~= p);
}

/// Every transaction key carries its partition prefix.
pub proof fn lemma_txn_key_has_prefix(sort_prefix: Seq<u8>, id: u128)
    ensures
        has_prefix(txn_key(sort_prefix, id), part_prefix(kind_transaction(), sort_prefix)),
{
    let p = part_prefix(kind_transaction(), sort_prefix);
    let k = txn_key(sort_prefix, id);
    assert(k.subrange(0, p.len() as int) =~= p);
}

/// Partition isolation at the key level: a key laid out as
/// `kind ++ primary ++ 0x00 ++ rest` matches a partition prefix of the same
/// kind exactly when the primary fields coincide.
pub proof fn lemma_prefix_isolation(kind: u8, p1: Seq<u8>, p2: Seq<u8>, rest: Seq<u8>)
    requires
        valid_name(p1),
        valid_name(p2),
    ensures
        has_prefix(part_prefix(kind, p2) + rest, part_prefix(kind, p1)) == (p1 == p2),
{
    let pre1 = part_prefix(kind, p1);
    let k = part_prefix(kind, p2) + rest;
    if p1 == p2 {
        assert(k.subrange(0, pre1.len() as int) =~= pre1);
    } else {
        if has_prefix(k, pre1) {
            let sub = k.subrange(0, pre1.len() as int);
            if p1.len() == p2.len() {
                assert forall|i: int| 0 <= i < p1.len() implies p1[i] == p2[i] by {
                    assert(sub[i + 1] == pre1[i + 1]);
                }
                assert(p1 =~= p2);
            } else if p1.len() < p2.len() {
                // The terminator of the prefix would have to equal a byte of p2.
                assert(sub[p1.len() as int + 1] == pre1[p1.len() as int + 1]);
                assert(pre1[p1.len() as int + 1] == 0);
                assert(k[p1.len() as int + 1] == p2[p1.len() as int]);
                assert(p2[p1.len() as int] != 0);
            } else {
                // A byte of p1 would have to equal the terminator of p2's key.
                assert(sub[p2.len() as int + 1] == pre1[p2.len() as int + 1]);
                assert(pre1[p2.len() as int + 1] == p1[p2.len() as int]);
                assert(k[p2.len() as int + 1] == 0);
                assert(p1[p2.len() as int] != 0);
            }
        }
    }
}

/// Within one ticker partition, byte order of quote keys equals numeric
/// order of (timestamp, sequence id), and distinct pairs give distinct keys.
pub proof fn lemma_quote_key_order(ticker: Seq<u8>, t1: i64, s1: i64, t2: i64, s2: i64)
    ensures
        lex_less(quote_key(ticker, t1, s1), quote_key(ticker, t2, s2)) == (t1 < t2 || (t1 == t2
            && s1 < s2)),
        (quote_key(ticker, t1, s1) == quote_key(ticker, t2, s2)) == (t1 == t2 && s1 == s2),
{
    let p = part_prefix(kind_quote(), ticker);
    let a = be8(bias64(t1)) + be8(bias64(s1));
    let b = be8(bias64(t2)) + be8(bias64(s2));
    assert(quote_key(ticker, t1, s1) =~= p + a);
    assert(quote_key(ticker, t2, s2) =~= p + b);
    lemma_lex_common_prefix(p, a, b);
    lemma_lex_eqlen_heads(be8(bias64(t1)), be8(bias64(t2)), be8(bias64(s1)), be8(bias64(s2)));
    lemma_be8_order(bias64(t1), bias64(t2));
    lemma_be8_order(bias64(s1), bias64(s2));
    if t1 == t2 && s1 == s2 {
        assert(a =~= b);
        assert(p + a =~= p + b);
    } else {
        assert(bias64(t1) != bias64(t2) || bias64(s1) != bias64(s2));
        if be8(bias64(t1)) == be8(bias64(t2)) {
            assert(bias64(t1) == bias64(t2));
            assert(a != b) by {
                assert(be8(bias64(s1)) != be8(bias64(s2)));
                assert(a.subrange(8, 16) =~= be8(bias64(s1)));
                assert(b.subrange(8, 16) =~= be8(bias64(s2)));
            }
        } else {
            assert(a != b) by {
                assert(a.subrange(0, 8) =~= be8(bias64(t1)));
                assert(b.subrange(0, 8) =~= be8(bias64(t2)));
            }
        }
        assert(p + a != p + b) by {
            assert((p + a).subrange(p.len() as int, (p + a).len() as int) =~= a);
            assert((p + b).subrange(p.len() as int, (p + b).len() as int) =~= b);
        }
    }
}

/// The split of a 128-bit id into 64-bit halves preserves order.
pub proof fn lemma_id_split_order(id1: u128, id2: u128)
    ensures
        (id1 < id2) == (id_hi(id1) < id_hi(id2) || (id_hi(id1) == id_hi(id2) && id_lo(id1) < id_lo(
            id2,
        ))),
        (id1 == id2) == (id_hi(id1) == id_hi(id2) && id_lo(id1) == id_lo(id2)),
{
    assert((id1 < id2) == (((id1 >> 64) as u64) < ((id2 >> 64) as u64) || (((id1 >> 64) as u64)
        == ((id2 >> 64) as u64) && (id1 as u64) < (id2 as u64)))) by (bit_vector);
    assert((id1 == id2) == (((id1 >> 64) as u64) == ((id2 >> 64) as u64) && (id1 as u64) == (
    id2 as u64))) by (bit_vector);
}

/// Within one sort-prefix partition, byte order of transaction keys equals
/// numeric order of the ids, and distinct ids give distinct keys.
pub proof fn lemma_txn_key_order(sort_prefix: Seq<u8>, id1: u128, id2: u128)
    ensures
        lex_less(txn_key(sort_prefix, id1), txn_key(sort_prefix, id2)) == (id1 < id2),
        (txn_key(sort_prefix, id1) == txn_key(sort_prefix, id2)) == (id1 == id2),
{
    let p = part_prefix(kind_transaction(), sort_prefix);
    let a = be8(id_hi(id1)) + be8(id_lo(id1));
    let b = be8(id_hi(id2)) + be8(id_lo(id2));
    assert(txn_key(sort_prefix, id1) =~= p + a);
    assert(txn_key(sort_prefix, id2) =~= p + b);
    lemma_lex_common_prefix(p, a, b);
    lemma_lex_eqlen_heads(be8(id_hi(id1)), be8(id_hi(id2)), be8(id_lo(id1)), be8(id_lo(id2)));
    lemma_be8_order(id_hi(id1), id_hi(id2));
    lemma_be8_order(id_lo(id1), id_lo(id2));
    lemma_id_split_order(id1, id2);
    if id1 == id2 {
        assert(a =~= b);
        assert(p + a =~= p + b);
    } else {
        if be8(id_hi(id1)) == be8(id_hi(id2)) {
            assert(a != b) by {
                assert(be8(id_lo(id1)) != be8(id_lo(id2)));
                assert(a.subrange(8, 16) =~= be8(id_lo(id1)));
                assert(b.subrange(8, 16) =~= be8(id_lo(id2)));
            }
        } else {
            assert(a != b) by {
                assert(a.subrange(0, 8) =~= be8(id_hi(id1)));
                assert(b.subrange(0, 8) =~= be8(id_hi(id2)));
            }
        }
        assert(p + a != p + b) by {
            assert((p + a).subrange(p.len() as int, (p + a).len() as int) =~= a);
            assert((p + b).subrange(p.len() as int, (p + b).len() as int) =~= b);
        }
    }
}

/// Keys of different kinds never collide and never match each other's
/// partition prefixes.
pub proof fn lemma_kind_isolation(k1: u8, p1: Seq<u8>, k2: u8, p2: Seq<u8>, rest: Seq<u8>)
    requires
        k1 != k2,
    ensures
        !has_prefix(part_prefix(k2, p2) + rest, part_prefix(k1, p1)),
{
    let pre1 = part_prefix(k1, p1);
    let k = part_prefix(k2, p2) + rest;
    if has_prefix(k, pre1) {
        assert(k.subrange(0, pre1.len() as int)[0] == pre1[0]);
        assert(k[0] == k2 && pre1[0] == k1);
    }
}

/// Builds a partition prefix or point key from a primary field.
pub fn build_part_prefix(kind: u8, primary: &str) -> (r: Vec<u8>)
    ensures
        r@ == part_prefix(kind, primary.spec_bytes()),
{
    let mut r: Vec<u8> = Vec::new();
    r.push(kind);
    let mut nb = primary.as_bytes_vec();
    r.append(&mut nb);
    r.push(0);
    assert(r@ =~= part_prefix(kind, primary.spec_bytes()));
    r
}

/// Builds the key of a quote from its ticker name, timestamp and sequence
/// id.
pub fn build_quote_key(ticker: &str, time: i64, seq_id: i64) -> (r: Vec<u8>)
    ensures
        r@ == quote_key(ticker.spec_bytes(), time, seq_id),
{
    let mut r = build_part_prefix(1, ticker);
    let mut tb = crate::order::u64_to_be(crate::order::i64_to_bias(time));
    r.append(&mut tb);
    let mut sb = crate::order::u64_to_be(crate::order::i64_to_bias(seq_id));
    r.append(&mut sb);
    assert(r@ =~= quote_key(ticker.spec_bytes(), time, seq_id));
    r
}

/// Builds the key of a transaction from its sort prefix and 128-bit id.
pub fn build_txn_key(sort_prefix: &str, id: u128) -> (r: Vec<u8>)
    ensures
        r@ == txn_key(sort_prefix.spec_bytes(), id),
{
    let mut r = build_part_prefix(3, sort_prefix);
    let hi: u64 = (id >> 64) as u64;
    let lo: u64 = id as u64;
    let mut hb = crate::order::u64_to_be(hi);
    r.append(&mut hb);
    let mut lb = crate::order::u64_to_be(lo);
    r.append(&mut lb);
    assert(r@ =~= txn_key(sort_prefix.spec_bytes(), id));
    r
}

/// True when a primary field is usable as a key component.
pub fn is_valid_name(name: &str) -> (r: bool)
    ensures
        r == valid_name(name.spec_bytes()),
{
    let nb = name.as_bytes_vec();
    let mut i: usize = 0;
    while i < nb.len()
        invariant
            0 <= i <= nb.len(),
            nb@ == name.spec_bytes(),
            forall|j: int| 0 <= j < i ==> nb@[j] != 0,
        decreases nb.len() - i,
    {
        if nb[i] == 0 {
            return false;
        }
        i = i + 1;
    }
    true
}

} // verus!
