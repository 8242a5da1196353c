//! Byte-string ordering and fixed-width order-key encodings.
//!
//! Keys are compared by the store with plain byte-wise lexicographic
//! comparison, so every numeric order field must be rendered at a fixed
//! width, most significant byte first, with signed values biased into the
//! unsigned range.  This module defines the lexicographic order on byte
//! sequences, the big-endian renderings, and the lemmas that connect byte
//! order to numeric order.

use vstd::prelude::*;

verus! {

/// Strict lexicographic (memcmp-style) order on byte sequences: a proper
/// prefix sorts before any of its extensions.
pub open spec fn lex_less(a: Seq<u8>, b: Seq<u8>) -> bool
    decreases a.len(),
{
    if b.len() == 0 {
        false
    } else if a.len() == 0 {
        true
    } else if a[0] < b[0] {
        true
    } else if a[0] > b[0] {
        false
    } else {
        lex_less(a.drop_first(), b.drop_first())
    }
}

/// `p` is a prefix of `k`.
pub open spec fn has_prefix(k: Seq<u8>, p: Seq<u8>) -> bool {
    p.len() <= k.len() && k.subrange(0, p.len() as int) == p
}

pub proof fn lemma_lex_irrefl(a: Seq<u8>)
    ensures
        !lex_less(a, a),
    decreases a.len(),
{
    if a.len() > 0 {
        lemma_lex_irrefl(a.drop_first());
    }
}

pub proof fn lemma_lex_total(a: Seq<u8>, b: Seq<u8>)
    ensures
        lex_less(a, b) || lex_less(b, a) || a == b,
    decreases a.len(),
{
    if a.len() == 0 && b.len() == 0 {
        assert(a =~= b);
    } else if a.len() > 0 && b.len() > 0 && a[0] == b[0] {
        lemma_lex_total(a.drop_first(), b.drop_first());
        if !lex_less(a, b) && !lex_less(b, a) {
            assert(a.drop_first() == b.drop_first());
            assert forall|i: int| 0 <= i < a.len() implies a[i] == b[i] by {
                if i > 0 {
                    assert(a[i] == a.drop_first()[i - 1]);
                    assert(b[i] == b.drop_first()[i - 1]);
                }
            }
            assert(a =~= b);
        }
    }
}

pub proof fn lemma_lex_trans(a: Seq<u8>, b: Seq<u8>, c: Seq<u8>)
    requires
        lex_less(a, b),
        lex_less(b, c),
    ensures
        lex_less(a, c),
    decreases a.len(),
{
    if a.len() > 0 && b.len() > 0 && c.len() > 0 && a[0] == b[0] && b[0] == c[0] {
        lemma_lex_trans(a.drop_first(), b.drop_first(), c.drop_first());
    }
}

/// Dropping a common prefix does not change the comparison.
pub proof fn lemma_lex_common_prefix(p: Seq<u8>, a: Seq<u8>, b: Seq<u8>)
    ensures
        lex_less(p + a, p + b) == lex_less(a, b),
    decreases p.len(),
{
    if p.len() == 0 {
        assert(p + a =~= a);
        assert(p + b =~= b);
    } else {
        assert((p + a).drop_first() =~= p.drop_first() + a);
        assert((p + b).drop_first() =~= p.drop_first() + b);
        lemma_lex_common_prefix(p.drop_first(), a, b);
    }
}

/// With equal-length heads, the heads decide unless they are equal, in which
/// case the tails decide.
pub proof fn lemma_lex_eqlen_heads(a: Seq<u8>, b: Seq<u8>, r1: Seq<u8>, r2: Seq<u8>)
    requires
        a.len() == b.len(),
    ensures
        lex_less(a + r1, b + r2) == if a == b {
            lex_less(r1, r2)
        } else {
            lex_less(a, b)
        },
    decreases a.len(),
{
    if a.len() == 0 {
        assert(a =~= b);
        assert(a + r1 =~= r1);
        assert(b + r2 =~= r2);
    } else {
        assert((a + r1).drop_first() =~= a.drop_first() + r1);
        assert((b + r2).drop_first() =~= b.drop_first() + r2);
        assert((a + r1)[0] == a[0]);
        assert((b + r2)[0] == b[0]);
        lemma_lex_eqlen_heads(a.drop_first(), b.drop_first(), r1, r2);
        if a[0] == b[0] {
            if a.drop_first() == b.drop_first() {
                assert forall|i: int| 0 <= i < a.len() implies a[i] == b[i] by {
                    if i > 0 {
                        assert(a[i] == a.drop_first()[i - 1]);
                        assert(b[i] == b.drop_first()[i - 1]);
                    }
                }
                assert(a =~= b);
            } else {
                assert(a != b);
            }
        } else {
            assert(a != b);
        }
    }
}

/// Keys sharing a prefix form a contiguous range: anything lying between two
/// of them in lexicographic order carries the same prefix.
pub proof fn lemma_between_same_prefix(p: Seq<u8>, a: Seq<u8>, b: Seq<u8>, c: Seq<u8>)
    requires
        has_prefix(a, p),
        has_prefix(c, p),
        !lex_less(b, a),
        !lex_less(c, b),
    ensures
        has_prefix(b, p),
    decreases p.len(),
{
    if p.len() == 0 {
        assert(b.subrange(0, 0) =~= p);
    } else {
        lemma_lex_total(a, b);
        lemma_lex_total(b, c);
        if a == b || b == c {
        } else {
            assert(lex_less(a, b) && lex_less(b, c));
            assert(a[0] == p[0]) by {
                assert(a.subrange(0, p.len() as int)[0] == a[0]);
            }
            assert(c[0] == p[0]) by {
                assert(c.subrange(0, p.len() as int)[0] == c[0]);
            }
            assert(b.len() > 0);
            assert(a[0] <= b[0] && b[0] <= c[0]);
            assert(b[0] == p[0]);
            assert(has_prefix(a.drop_first(), p.drop_first())) by {
                assert forall|i: int| 0 <= i < p.len() - 1 implies a.drop_first().subrange(
                    0,
                    p.len() - 1,
                )[i] == p.drop_first()[i] by {
                    assert(a.drop_first().subrange(0, p.len() - 1)[i] == a[i + 1]);
                    assert(a.subrange(0, p.len() as int)[i + 1] == a[i + 1]);
                }
                assert(a.drop_first().subrange(0, p.len() - 1) =~= p.drop_first());
            }
            assert(has_prefix(c.drop_first(), p.drop_first())) by {
                assert forall|i: int| 0 <= i < p.len() - 1 implies c.drop_first().subrange(
                    0,
                    p.len() - 1,
                )[i] == p.drop_first()[i] by {
                    assert(c.drop_first().subrange(0, p.len() - 1)[i] == c[i + 1]);
                    assert(c.subrange(0, p.len() as int)[i + 1] == c[i + 1]);
                }
                assert(c.drop_first().subrange(0, p.len() - 1) =~= p.drop_first());
            }
            lemma_between_same_prefix(
                p.drop_first(),
                a.drop_first(),
                b.drop_first(),
                c.drop_first(),
            );
            assert forall|i: int| 0 <= i < p.len() implies b.subrange(0, p.len() as int)[i]
                == p[i] by {
                if i > 0 {
                    assert(b.drop_first().subrange(0, p.len() - 1)[i - 1] == b[i]);
                    assert(p.drop_first()[i - 1] == p[i]);
                }
            }
            assert(b.subrange(0, p.len() as int) =~= p);
        }
    }
}

/// Big-endian rendering of a 64-bit value, most significant byte first.
pub open spec fn be8(x: u64) -> Seq<u8> {
    seq![
        (x >> 56) as u8,
        (x >> 48) as u8,
        (x >> 40) as u8,
        (x >> 32) as u8,
        (x >> 24) as u8,
        (x >> 16) as u8,
        (x >> 8) as u8,
        x as u8,
    ]
}

/// Signed 64-bit order key biased into the unsigned range, so that unsigned
/// byte order equals signed numeric order.
pub open spec fn bias64(t: i64) -> u64 {
    (t + 0x8000_0000_0000_0000) as u64
}

/// Unfolds `lex_less` on two eight-byte strings into a byte-wise comparison.
proof fn lemma_lex8(a: Seq<u8>, b: Seq<u8>)
    requires
        a.len() == 8,
        b.len() == 8,
    ensures
        lex_less(a, b) == (a[0] < b[0] || (a[0] == b[0] && (a[1] < b[1] || (a[1] == b[1] && (a[2]
            < b[2] || (a[2] == b[2] && (a[3] < b[3] || (a[3] == b[3] && (a[4] < b[4] || (a[4]
            == b[4] && (a[5] < b[5] || (a[5] == b[5] && (a[6] < b[6] || (a[6] == b[6] && a[7]
            < b[7])))))))))))))),
{
    let a1 = a.drop_first();
    let b1 = b.drop_first();
    let a2 = a1.drop_first();
    let b2 = b1.drop_first();
    let a3 = a2.drop_first();
    let b3 = b2.drop_first();
    let a4 = a3.drop_first();
    let b4 = b3.drop_first();
    let a5 = a4.drop_first();
    let b5 = b4.drop_first();
    let a6 = a5.drop_first();
    let b6 = b5.drop_first();
    let a7 = a6.drop_first();
    let b7 = b6.drop_first();
    assert(a1[0] == a[1] && a2[0] == a1[1] && a1[1] == a[2]);
    assert(a3[0] == a2[1] && a2[1] == a1[2] && a1[2] == a[3]);
    assert(a4[0] == a3[1] && a3[1] == a2[2] && a2[2] == a1[3] && a1[3] == a[4]);
    assert(a5[0] == a4[1] && a4[1] == a3[2] && a3[2] == a2[3] && a2[3] == a1[4] && a1[4] == a[5]);
    assert(a6[0] == a5[1] && a5[1] == a4[2] && a4[2] == a3[3] && a3[3] == a2[4] && a2[4] == a1[5]
        && a1[5] == a[6]);
    assert(a7[0] == a6[1] && a6[1] == a5[2] && a5[2] == a4[3] && a4[3] == a3[4] && a3[4] == a2[5]
        && a2[5] == a1[6] && a1[6] == a[7]);
    assert(b1[0] == b[1] && b2[0] == b1[1] && b1[1] == b[2]);
    assert(b3[0] == b2[1] && b2[1] == b1[2] && b1[2] == b[3]);
    assert(b4[0] == b3[1] && b3[1] == b2[2] && b2[2] == b1[3] && b1[3] == b[4]);
    assert(b5[0] == b4[1] && b4[1] == b3[2] && b3[2] == b2[3] && b2[3] == b1[4] && b1[4] == b[5]);
    assert(b6[0] == b5[1] && b5[1] == b4[2] && b4[2] == b3[3] && b3[3] == b2[4] && b2[4] == b1[5]
        && b1[5] == b[6]);
    assert(b7[0] == b6[1] && b6[1] == b5[2] && b5[2] == b4[3] && b4[3] == b3[4] && b3[4] == b2[5]
        && b2[5] == b1[6] && b1[6] == b[7]);
    assert(a7.len() == 1 && b7.len() == 1);
    assert(a7.drop_first().len() == 0 && b7.drop_first().len() == 0);
    assert(!lex_less(a7.drop_first(), b7.drop_first()));
    assert(lex_less(a7, b7) == (a7[0] < b7[0]));
    assert(lex_less(a6, b6) == (a6[0] < b6[0] || (a6[0] == b6[0] && lex_less(a7, b7))));
    assert(lex_less(a5, b5) == (a5[0] < b5[0] || (a5[0] == b5[0] && lex_less(a6, b6))));
    assert(lex_less(a4, b4) == (a4[0] < b4[0] || (a4[0] == b4[0] && lex_less(a5, b5))));
    assert(lex_less(a3, b3) == (a3[0] < b3[0] || (a3[0] == b3[0] && lex_less(a4, b4))));
    assert(lex_less(a2, b2) == (a2[0] < b2[0] || (a2[0] == b2[0] && lex_less(a3, b3))));
    assert(lex_less(a1, b1) == (a1[0] < b1[0] || (a1[0] == b1[0] && lex_less(a2, b2))));
    assert(lex_less(a, b) == (a[0] < b[0] || (a[0] == b[0] && lex_less(a1, b1))));
}

/// Byte-lexicographic order of big-endian renderings equals numeric order.
pub proof fn lemma_be8_order(x1: u64, x2: u64)
    ensures
        lex_less(be8(x1), be8(x2)) == (x1 < x2),
        (be8(x1) == be8(x2)) == (x1 == x2),
{
    lemma_lex8(be8(x1), be8(x2));
    assert((x1 < x2) == (((x1 >> 56) as u8) < ((x2 >> 56) as u8) || (((x1 >> 56) as u8) == ((x2
        >> 56) as u8) && (((x1 >> 48) as u8) < ((x2 >> 48) as u8) || (((x1 >> 48) as u8) == ((x2
        >> 48) as u8) && (((x1 >> 40) as u8) < ((x2 >> 40) as u8) || (((x1 >> 40) as u8) == ((x2
        >> 40) as u8) && (((x1 >> 32) as u8) < ((x2 >> 32) as u8) || (((x1 >> 32) as u8) == ((x2
        >> 32) as u8) && (((x1 >> 24) as u8) < ((x2 >> 24) as u8) || (((x1 >> 24) as u8) == ((x2
        >> 24) as u8) && (((x1 >> 16) as u8) < ((x2 >> 16) as u8) || (((x1 >> 16) as u8) == ((x2
        >> 16) as u8) && (((x1 >> 8) as u8) < ((x2 >> 8) as u8) || (((x1 >> 8) as u8) == ((x2
        >> 8) as u8) && (x1 as u8) < (x2 as u8)))))))))))))))) by (bit_vector);
    assert(((((x1 >> 56) as u8) == ((x2 >> 56) as u8)) && (((x1 >> 48) as u8) == ((x2
        >> 48) as u8)) && (((x1 >> 40) as u8) == ((x2 >> 40) as u8)) && (((x1 >> 32) as u8) == ((
    x2 >> 32) as u8)) && (((x1 >> 24) as u8) == ((x2 >> 24) as u8)) && (((x1 >> 16) as u8) == ((x2
        >> 16) as u8)) && (((x1 >> 8) as u8) == ((x2 >> 8) as u8)) && ((x1 as u8) == (
    x2 as u8))) ==> x1 == x2) by (bit_vector);
    if x1 == x2 {
        assert(be8(x1) =~= be8(x2));
    } else {
        if be8(x1) == be8(x2) {
            assert(be8(x1)[0] == be8(x2)[0] && be8(x1)[1] == be8(x2)[1] && be8(x1)[2] == be8(
                x2,
            )[2] && be8(x1)[3] == be8(x2)[3] && be8(x1)[4] == be8(x2)[4] && be8(x1)[5] == be8(
                x2,
            )[5] && be8(x1)[6] == be8(x2)[6] && be8(x1)[7] == be8(x2)[7]);
        }
    }
}

/// Renders a 64-bit value in big-endian byte order.
pub fn u64_to_be(x: u64) -> (r: Vec<u8>)
    ensures
        r@ == be8(x),
{
    let mut r: Vec<u8> = Vec::new();
    r.push((x >> 56) as u8);
    r.push((x >> 48) as u8);
    r.push((x >> 40) as u8);
    r.push((x >> 32) as u8);
    r.push((x >> 24) as u8);
    r.push((x >> 16) as u8);
    r.push((x >> 8) as u8);
    r.push(x as u8);
    assert(r@ =~= be8(x));
    r
}

/// Biases a signed order key into the unsigned range.
pub fn i64_to_bias(t: i64) -> (c: u64)
    ensures
        c == bias64(t),
{
    (((t as i128) + 0x8000_0000_0000_0000i128) as u64)
}

/// Recovers a signed order key from its biased rendering.
pub fn bias_to_i64(c: u64) -> (t: i64)
    ensures
        bias64(t) == c,
{
    (((c as i128) - 0x8000_0000_0000_0000i128) as i64)
}

} // verus!
