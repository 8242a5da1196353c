//! Record codec: deterministic binary encoding of the record types.
//!
//! Values are encoded field by field: numbers at a fixed width (big-endian,
//! signed values biased), strings as a length followed by their UTF-8
//! bytes, options as a tag byte followed by the payload.  Decoding checks
//! every bound and rejects any buffer that is not exactly an encoding, so a
//! corrupt stored value yields `None` rather than a wrong record.

use vstd::prelude::*;

use vstd::string::{StrSliceExecFns, StringSliceAdditionalSpecFns};
use vstd::utf8::{decode_utf8, encode_utf8, encode_utf8_decode_utf8, encode_utf8_valid_utf8,
    valid_utf8};

use crate::asset::{Asset, AssetV};
use crate::fiat::{spec_currency_code, spec_currency_from, currency_code, currency_from_code,
    CashAmount, CashFlow, Currency, Date};
use crate::order::{be8, bias64, u64_to_be, i64_to_bias};
use crate::quote::{Quote, QuoteV, Ticker, TickerV};
use crate::transaction::{TransactionTypeV, TransactionV};

verus! {

/// Numeric value of an eight-byte big-endian rendering.
pub open spec fn u64_of_be(s: Seq<u8>) -> u64
    recommends
        s.len() == 8,
{
    (((s[0] as u64) << 56) | ((s[1] as u64) << 48) | ((s[2] as u64) << 40) | ((s[3] as u64) << 32)
        | ((s[4] as u64) << 24) | ((s[5] as u64) << 16) | ((s[6] as u64) << 8) | (s[7] as u64))
}

pub proof fn lemma_be8_roundtrip(x: u64)
    ensures
        u64_of_be(be8(x)) == x,
{
    assert(((((x >> 56) as u8) as u64) << 56 | (((x >> 48) as u8) as u64) << 48 | (((x
        >> 40) as u8) as u64) << 40 | (((x >> 32) as u8) as u64) << 32 | (((x >> 24) as u8) as u64)
        << 24 | (((x >> 16) as u8) as u64) << 16 | (((x >> 8) as u8) as u64) << 8 | ((
    x as u8) as u64)) == x) by (bit_vector);
}

/// Signed value of a biased rendering; inverse of `bias64`.
pub open spec fn unbias64(c: u64) -> i64 {
    (c - 0x8000_0000_0000_0000) as i64
}

/// Reads eight big-endian bytes at `i`.
pub open spec fn dec_u64(b: Seq<u8>, i: int) -> Option<(u64, int)> {
    if 0 <= i && i + 8 <= b.len() {
        Some((u64_of_be(b.subrange(i, i + 8)), i + 8))
    } else {
        None
    }
}

/// Reads a biased signed 64-bit value at `i`.
pub open spec fn dec_i64(b: Seq<u8>, i: int) -> Option<(i64, int)> {
    match dec_u64(b, i) {
        Some((c, j)) => Some((unbias64(c), j)),
        None => None,
    }
}

/// Reads a 128-bit value stored as two big-endian halves at `i`.
pub open spec fn dec_u128(b: Seq<u8>, i: int) -> Option<(u128, int)> {
    match dec_u64(b, i) {
        Some((hi, j)) => match dec_u64(b, j) {
            Some((lo, j2)) => Some(((((hi as u128) << 64) | (lo as u128)), j2)),
            None => None,
        },
        None => None,
    }
}

/// Reads one byte at `i`.
pub open spec fn dec_byte(b: Seq<u8>, i: int) -> Option<(u8, int)> {
    if 0 <= i < b.len() {
        Some((b[i], i + 1))
    } else {
        None
    }
}

/// Reads a length-prefixed UTF-8 string at `i`.
pub open spec fn dec_str(b: Seq<u8>, i: int) -> Option<(Seq<char>, int)> {
    match dec_u64(b, i) {
        Some((l, j)) => if j + l <= b.len() {
            if valid_utf8(b.subrange(j, j + l)) {
                Some((decode_utf8(b.subrange(j, j + l)), j + l))
            } else {
                None
            }
        } else {
            None
        },
        None => None,
    }
}

/// Reads a tagged optional string at `i`.
pub open spec fn dec_opt_str(b: Seq<u8>, i: int) -> Option<(Option<Seq<char>>, int)> {
    match dec_byte(b, i) {
        Some((t, j)) => if t == 0 {
            Some((None, j))
        } else if t == 1 {
            match dec_str(b, j) {
                Some((s, j2)) => Some((Some(s), j2)),
                None => None,
            }
        } else {
            None
        },
        None => None,
    }
}

/// Reads a tagged optional signed 64-bit value at `i`.
pub open spec fn dec_opt_i64(b: Seq<u8>, i: int) -> Option<(Option<i64>, int)> {
    match dec_byte(b, i) {
        Some((t, j)) => if t == 0 {
            Some((None, j))
        } else if t == 1 {
            match dec_i64(b, j) {
                Some((v, j2)) => Some((Some(v), j2)),
                None => None,
            }
        } else {
            None
        },
        None => None,
    }
}

/// Reads a tagged optional 128-bit value at `i`.
pub open spec fn dec_opt_u128(b: Seq<u8>, i: int) -> Option<(Option<u128>, int)> {
    match dec_byte(b, i) {
        Some((t, j)) => if t == 0 {
            Some((None, j))
        } else if t == 1 {
            match dec_u128(b, j) {
                Some((v, j2)) => Some((Some(v), j2)),
                None => None,
            }
        } else {
            None
        },
        None => None,
    }
}

/// Encoding of a signed 64-bit value.
pub open spec fn enc_i64(x: i64) -> Seq<u8> {
    be8(bias64(x))
}

/// Encoding of a 128-bit value.
pub open spec fn enc_u128(x: u128) -> Seq<u8> {
    be8(crate::keys::id_hi(x)) + be8(crate::keys::id_lo(x))
}

/// Encoding of a string: length, then UTF-8 bytes.
pub open spec fn enc_str(s: Seq<char>) -> Seq<u8> {
    be8(encode_utf8(s).len() as u64) + encode_utf8(s)
}

/// Encoding of an optional string.
pub open spec fn enc_opt_str(o: Option<Seq<char>>) -> Seq<u8> {
    match o {
        None => seq![0u8],
        Some(s) => seq![1u8] + enc_str(s),
    }
}

/// Encoding of an optional signed 64-bit value.
pub open spec fn enc_opt_i64(o: Option<i64>) -> Seq<u8> {
    match o {
        None => seq![0u8],
        Some(v) => seq![1u8] + enc_i64(v),
    }
}

/// Encoding of an optional 128-bit value.
pub open spec fn enc_opt_u128(o: Option<u128>) -> Seq<u8> {
    match o {
        None => seq![0u8],
        Some(v) => seq![1u8] + enc_u128(v),
    }
}

/// A string is encodable when its UTF-8 length fits the length field.
pub open spec fn str_ok(s: Seq<char>) -> bool {
    encode_utf8(s).len() <= u64::MAX
}

/// An optional string is encodable when its payload is.
pub open spec fn opt_str_ok(o: Option<Seq<char>>) -> bool {
    match o {
        None => true,
        Some(s) => str_ok(s),
    }
}

proof fn lemma_dec_u64_frame(b: Seq<u8>, i: int, x: u64)
    requires
        0 <= i,
        i + 8 <= b.len(),
        b.subrange(i, i + 8) == be8(x),
    ensures
        dec_u64(b, i) == Some((x, i + 8)),
{
    lemma_be8_roundtrip(x);
}

proof fn lemma_dec_i64_frame(b: Seq<u8>, i: int, x: i64)
    requires
        0 <= i,
        i + 8 <= b.len(),
        b.subrange(i, i + 8) == enc_i64(x),
    ensures
        dec_i64(b, i) == Some((x, i + 8)),
{
    lemma_dec_u64_frame(b, i, bias64(x));
}

proof fn lemma_dec_u128_frame(b: Seq<u8>, i: int, x: u128)
    requires
        0 <= i,
        i + 16 <= b.len(),
        b.subrange(i, i + 16) == enc_u128(x),
    ensures
        dec_u128(b, i) == Some((x, i + 16)),
{
    let hi = crate::keys::id_hi(x);
    let lo = crate::keys::id_lo(x);
    assert(b.subrange(i, i + 8) =~= be8(hi)) by {
        assert forall|j: int| 0 <= j < 8 implies b.subrange(i, i + 8)[j] == be8(hi)[j] by {
            assert(b.subrange(i, i + 16)[j] == (be8(hi) + be8(lo))[j]);
        }
    }
    assert(b.subrange(i + 8, i + 16) =~= be8(lo)) by {
        assert forall|j: int| 0 <= j < 8 implies b.subrange(i + 8, i + 16)[j] == be8(lo)[j] by {
            assert(b.subrange(i, i + 16)[j + 8] == (be8(hi) + be8(lo))[j + 8]);
        }
    }
    lemma_dec_u64_frame(b, i, hi);
    lemma_dec_u64_frame(b, i + 8, lo);
    assert(((((x >> 64) as u64) as u128) << 64 | ((x as u64) as u128)) == x) by (bit_vector);
}

proof fn lemma_dec_str_frame(b: Seq<u8>, i: int, s: Seq<char>)
    requires
        str_ok(s),
        0 <= i,
        i + enc_str(s).len() <= b.len(),
        b.subrange(i, i + enc_str(s).len()) == enc_str(s),
    ensures
        dec_str(b, i) == Some((s, i + enc_str(s).len())),
{
    let u = encode_utf8(s);
    let l = u.len() as int;
    assert(enc_str(s).len() == 8 + l);
    assert(b.subrange(i, i + 8) =~= be8(l as u64)) by {
        assert forall|j: int| 0 <= j < 8 implies #[trigger] b.subrange(i, i + 8)[j] == be8(l as u64)[j] by {
            assert(b.subrange(i, i + 8 + l)[j] == enc_str(s)[j]);
        }
    }
    lemma_dec_u64_frame(b, i, l as u64);
    assert(b.subrange(i + 8, i + 8 + l) =~= u) by {
        assert forall|j: int| 0 <= j < l implies b.subrange(i + 8, i + 8 + l)[j] == u[j] by {
            assert(b.subrange(i, i + 8 + l)[j + 8] == enc_str(s)[j + 8]);
        }
    }
    encode_utf8_valid_utf8(s);
    encode_utf8_decode_utf8(s);
}

proof fn lemma_dec_opt_str_frame(b: Seq<u8>, i: int, o: Option<Seq<char>>)
    requires
        opt_str_ok(o),
        0 <= i,
        i + enc_opt_str(o).len() <= b.len(),
        b.subrange(i, i + enc_opt_str(o).len()) == enc_opt_str(o),
    ensures
        dec_opt_str(b, i) == Some((o, i + enc_opt_str(o).len())),
{
    assert(b[i] == enc_opt_str(o)[0]) by {
        assert(b.subrange(i, i + enc_opt_str(o).len())[0] == enc_opt_str(o)[0]);
    }
    match o {
        None => {
        },
        Some(s) => {
            assert(b.subrange(i + 1, i + 1 + enc_str(s).len()) =~= enc_str(s)) by {
                assert forall|j: int| 0 <= j < enc_str(s).len() implies b.subrange(
                    i + 1,
                    i + 1 + enc_str(s).len(),
                )[j] == enc_str(s)[j] by {
                    assert(b.subrange(i, i + enc_opt_str(o).len())[j + 1] == enc_opt_str(o)[j + 1]);
                }
            }
            lemma_dec_str_frame(b, i + 1, s);
        },
    }
}

proof fn lemma_dec_opt_i64_frame(b: Seq<u8>, i: int, o: Option<i64>)
    requires
        0 <= i,
        i + enc_opt_i64(o).len() <= b.len(),
        b.subrange(i, i + enc_opt_i64(o).len()) == enc_opt_i64(o),
    ensures
        dec_opt_i64(b, i) == Some((o, i + enc_opt_i64(o).len())),
{
    assert(b[i] == enc_opt_i64(o)[0]) by {
        assert(b.subrange(i, i + enc_opt_i64(o).len())[0] == enc_opt_i64(o)[0]);
    }
    match o {
        None => {
        },
        Some(v) => {
            assert(b.subrange(i + 1, i + 9) =~= enc_i64(v)) by {
                assert forall|j: int| 0 <= j < 8 implies b.subrange(i + 1, i + 9)[j] == enc_i64(
                    v,
                )[j] by {
                    assert(b.subrange(i, i + 9)[j + 1] == enc_opt_i64(o)[j + 1]);
                }
            }
            lemma_dec_i64_frame(b, i + 1, v);
        },
    }
}

proof fn lemma_dec_opt_u128_frame(b: Seq<u8>, i: int, o: Option<u128>)
    requires
        0 <= i,
        i + enc_opt_u128(o).len() <= b.len(),
        b.subrange(i, i + enc_opt_u128(o).len()) == enc_opt_u128(o),
    ensures
        dec_opt_u128(b, i) == Some((o, i + enc_opt_u128(o).len())),
{
    assert(b[i] == enc_opt_u128(o)[0]) by {
        assert(b.subrange(i, i + enc_opt_u128(o).len())[0] == enc_opt_u128(o)[0]);
    }
    match o {
        None => {
        },
        Some(v) => {
            assert(b.subrange(i + 1, i + 17) =~= enc_u128(v)) by {
                assert forall|j: int| 0 <= j < 16 implies b.subrange(i + 1, i + 17)[j] == enc_u128(
                    v,
                )[j] by {
                    assert(b.subrange(i, i + 17)[j + 1] == enc_opt_u128(o)[j + 1]);
                }
            }
            lemma_dec_u128_frame(b, i + 1, v);
        },
    }
}

/// Relies on `String::from_utf8`: it succeeds exactly on valid UTF-8 input
/// and returns the string of those bytes.
#[verifier::external_body]
fn string_from_utf8(bytes: Vec<u8>) -> (r: Option<String>)
    ensures
        r matches Some(s) ==> valid_utf8(bytes@) && s@ == decode_utf8(bytes@),
        r is None ==> !valid_utf8(bytes@),
{
    match String::from_utf8(bytes) {
        Ok(s) => Some(s),
        Err(_) => None,
    }
}

/// Copies the byte range `start..end` out of a buffer.
fn sub_vec(b: &Vec<u8>, start: usize, end: usize) -> (r: Vec<u8>)
    requires
        start <= end <= b@.len(),
    ensures
        r@ == b@.subrange(start as int, end as int),
{
    let mut r: Vec<u8> = Vec::new();
    let mut i: usize = start;
    while i < end
        invariant
            start <= i <= end <= b@.len(),
            r@ =~= b@.subrange(start as int, i as int),
        decreases end - i,
    {
        r.push(b[i]);
        i = i + 1;
    }
    proof {
        assert(r@ =~= b@.subrange(start as int, end as int));
    }
    r
}

/// Reads eight big-endian bytes at `i`.
fn read_u64(b: &Vec<u8>, i: usize) -> (r: Option<(u64, usize)>)
    ensures
        match r {
            Some((x, j)) => dec_u64(b@, i as int) == Some((x, j as int)),
            None => dec_u64(b@, i as int) is None,
        },
{
    if b.len() >= 8 && i <= b.len() - 8 {
        let x = ((b[i] as u64) << 56) | ((b[i + 1] as u64) << 48) | ((b[i + 2] as u64) << 40) | ((
        b[i + 3] as u64) << 32) | ((b[i + 4] as u64) << 24) | ((b[i + 5] as u64) << 16) | ((b[i
            + 6] as u64) << 8) | (b[i + 7] as u64);
        proof {
            let s = b@.subrange(i as int, i + 8);
            assert(s[0] == b@[i as int] && s[1] == b@[i + 1] && s[2] == b@[i + 2] && s[3] == b@[i
                + 3] && s[4] == b@[i + 4] && s[5] == b@[i + 5] && s[6] == b@[i + 6] && s[7] == b@[i
                + 7]);
        }
        Some((x, i + 8))
    } else {
        None
    }
}

/// Reads a biased signed 64-bit value at `i`.
fn read_i64(b: &Vec<u8>, i: usize) -> (r: Option<(i64, usize)>)
    ensures
        match r {
            Some((x, j)) => dec_i64(b@, i as int) == Some((x, j as int)),
            None => dec_i64(b@, i as int) is None,
        },
{
    match read_u64(b, i) {
        Some((c, j)) => {
            let t = crate::order::bias_to_i64(c);
            Some((t, j))
        },
        None => None,
    }
}

/// Reads a 128-bit value at `i`.
fn read_u128(b: &Vec<u8>, i: usize) -> (r: Option<(u128, usize)>)
    ensures
        match r {
            Some((x, j)) => dec_u128(b@, i as int) == Some((x, j as int)),
            None => dec_u128(b@, i as int) is None,
        },
{
    match read_u64(b, i) {
        Some((hi, j)) => match read_u64(b, j) {
            Some((lo, j2)) => Some(((((hi as u128) << 64) | (lo as u128)), j2)),
            None => None,
        },
        None => None,
    }
}

/// Reads one byte at `i`.
fn read_byte(b: &Vec<u8>, i: usize) -> (r: Option<(u8, usize)>)
    ensures
        match r {
            Some((x, j)) => dec_byte(b@, i as int) == Some((x, j as int)),
            None => dec_byte(b@, i as int) is None,
        },
{
    if i < b.len() {
        Some((b[i], i + 1))
    } else {
        None
    }
}

/// Reads a length-prefixed UTF-8 string at `i`.
fn read_str(b: &Vec<u8>, i: usize) -> (r: Option<(String, usize)>)
    ensures
        match r {
            Some((s, j)) => dec_str(b@, i as int) matches Some((sv, jv)) && s@ == sv && j == jv,
            None => dec_str(b@, i as int) is None,
        },
{
    match read_u64(b, i) {
        Some((l, j)) => {
            if l <= (b.len() - j) as u64 {
                let end = j + (l as usize);
                let bytes = sub_vec(b, j, end);
                match string_from_utf8(bytes) {
                    Some(s) => Some((s, end)),
                    None => None,
                }
            } else {
                None
            }
        },
        None => None,
    }
}

/// Reads a tagged optional string at `i`.
fn read_opt_str(b: &Vec<u8>, i: usize) -> (r: Option<(Option<String>, usize)>)
    ensures
        match r {
            Some((o, j)) => dec_opt_str(b@, i as int) matches Some((ov, jv)) && j == jv && (match o
                {
                Some(s) => ov matches Some(sv) && s@ == sv,
                None => ov is None,
            }),
            None => dec_opt_str(b@, i as int) is None,
        },
{
    match read_byte(b, i) {
        Some((t, j)) => {
            if t == 0 {
                Some((None, j))
            } else if t == 1 {
                match read_str(b, j) {
                    Some((s, j2)) => Some((Some(s), j2)),
                    None => None,
                }
            } else {
                None
            }
        },
        None => None,
    }
}

/// Reads a tagged optional signed 64-bit value at `i`.
fn read_opt_i64(b: &Vec<u8>, i: usize) -> (r: Option<(Option<i64>, usize)>)
    ensures
        match r {
            Some((o, j)) => dec_opt_i64(b@, i as int) == Some((o, j as int)),
            None => dec_opt_i64(b@, i as int) is None,
        },
{
    match read_byte(b, i) {
        Some((t, j)) => {
            if t == 0 {
                Some((None, j))
            } else if t == 1 {
                match read_i64(b, j) {
                    Some((v, j2)) => Some((Some(v), j2)),
                    None => None,
                }
            } else {
                None
            }
        },
        None => None,
    }
}

/// Reads a tagged optional 128-bit value at `i`.
fn read_opt_u128(b: &Vec<u8>, i: usize) -> (r: Option<(Option<u128>, usize)>)
    ensures
        match r {
            Some((o, j)) => dec_opt_u128(b@, i as int) == Some((o, j as int)),
            None => dec_opt_u128(b@, i as int) is None,
        },
{
    match read_byte(b, i) {
        Some((t, j)) => {
            if t == 0 {
                Some((None, j))
            } else if t == 1 {
                match read_u128(b, j) {
                    Some((v, j2)) => Some((Some(v), j2)),
                    None => None,
                }
            } else {
                None
            }
        },
        None => None,
    }
}

/// Appends the encoding of a string to `out`.
fn write_str(out: &mut Vec<u8>, s: &str)
    ensures
        final(out)@ == old(out)@ + enc_str(s@),
{
    let mut nb = s.as_bytes_vec();
    let l: u64 = nb.len() as u64;
    let mut lb = u64_to_be(l);
    out.append(&mut lb);
    out.append(&mut nb);
    proof {
        assert(final(out)@ =~= old(out)@ + enc_str(s@));
    }
}

/// Appends the encoding of an optional string to `out`.
fn write_opt_str(out: &mut Vec<u8>, s: &Option<String>)
    ensures
        final(out)@ == old(out)@ + enc_opt_str(
            match s {
                Some(x) => Some(x@),
                None => None,
            },
        ),
{
    match s {
        None => {
            out.push(0);
            proof {
                assert(final(out)@ =~= old(out)@ + enc_opt_str(None));
            }
        },
        Some(x) => {
            out.push(1);
            write_str(out, x.as_str());
            proof {
                assert(final(out)@ =~= old(out)@ + enc_opt_str(Some(x@)));
            }
        },
    }
}

/// Appends a biased signed 64-bit value to `out`.
fn write_i64(out: &mut Vec<u8>, x: i64)
    ensures
        final(out)@ == old(out)@ + enc_i64(x),
{
    let mut vb = u64_to_be(i64_to_bias(x));
    out.append(&mut vb);
    proof {
        assert(final(out)@ =~= old(out)@ + enc_i64(x));
    }
}

/// Appends a 128-bit value to `out`.
fn write_u128(out: &mut Vec<u8>, x: u128)
    ensures
        final(out)@ == old(out)@ + enc_u128(x),
{
    let mut hb = u64_to_be((x >> 64) as u64);
    out.append(&mut hb);
    let mut lb = u64_to_be(x as u64);
    out.append(&mut lb);
    proof {
        assert(final(out)@ =~= old(out)@ + enc_u128(x));
    }
}

/// Appends a tagged optional signed 64-bit value to `out`.
fn write_opt_i64(out: &mut Vec<u8>, x: &Option<i64>)
    ensures
        final(out)@ == old(out)@ + enc_opt_i64(*x),
{
    match x {
        None => {
            out.push(0);
            proof {
                assert(final(out)@ =~= old(out)@ + enc_opt_i64(None));
            }
        },
        Some(v) => {
            out.push(1);
            write_i64(out, *v);
            proof {
                assert(final(out)@ =~= old(out)@ + enc_opt_i64(Some(*v)));
            }
        },
    }
}

/// Appends a tagged optional 128-bit value to `out`.
fn write_opt_u128(out: &mut Vec<u8>, x: &Option<u128>)
    ensures
        final(out)@ == old(out)@ + enc_opt_u128(*x),
{
    match x {
        None => {
            out.push(0);
            proof {
                assert(final(out)@ =~= old(out)@ + enc_opt_u128(None));
            }
        },
        Some(v) => {
            out.push(1);
            write_u128(out, *v);
            proof {
                assert(final(out)@ =~= old(out)@ + enc_opt_u128(Some(*v)));
            }
        },
    }
}

/// Encoding of a currency: its one-byte wire code.
pub open spec fn enc_currency(c: Currency) -> Seq<u8> {
    seq![spec_currency_code(c)]
}

/// Reads a currency at `i`.
pub open spec fn dec_currency(b: Seq<u8>, i: int) -> Option<(Currency, int)> {
    match dec_byte(b, i) {
        Some((t, j)) => match spec_currency_from(t) {
            Some(c) => Some((c, j)),
            None => None,
        },
        None => None,
    }
}

proof fn lemma_dec_currency_frame(b: Seq<u8>, i: int, c: Currency)
    requires
        0 <= i,
        i + 1 <= b.len(),
        b.subrange(i, i + 1) == enc_currency(c),
    ensures
        dec_currency(b, i) == Some((c, i + 1)),
{
    assert(b[i] == enc_currency(c)[0]) by {
        assert(b.subrange(i, i + 1)[0] == enc_currency(c)[0]);
    }
    crate::fiat::lemma_currency_roundtrip(c);
}

/// Encoding of a signed 32-bit value, widened to the 64-bit form.
pub open spec fn enc_i32(x: i32) -> Seq<u8> {
    enc_i64(x as i64)
}

/// Reads a signed 32-bit value at `i`; a stored value outside the 32-bit
/// range is rejected.
pub open spec fn dec_i32(b: Seq<u8>, i: int) -> Option<(i32, int)> {
    match dec_i64(b, i) {
        Some((v, j)) => if i32::MIN <= v <= i32::MAX {
            Some((v as i32, j))
        } else {
            None
        },
        None => None,
    }
}

proof fn lemma_dec_i32_frame(b: Seq<u8>, i: int, x: i32)
    requires
        0 <= i,
        i + 8 <= b.len(),
        b.subrange(i, i + 8) == enc_i32(x),
    ensures
        dec_i32(b, i) == Some((x, i + 8)),
{
    lemma_dec_i64_frame(b, i, x as i64);
}

/// Encoding of a date: year, month, day.
pub open spec fn enc_date(d: Date) -> Seq<u8> {
    enc_i32(d.year) + seq![d.month, d.day]
}

/// Reads a date at `i`.
pub open spec fn dec_date(b: Seq<u8>, i: int) -> Option<(Date, int)> {
    match dec_i32(b, i) {
        Some((year, j)) => match dec_byte(b, j) {
            Some((month, j2)) => match dec_byte(b, j2) {
                Some((day, j3)) => Some((Date { year, month, day }, j3)),
                None => None,
            },
            None => None,
        },
        None => None,
    }
}

proof fn lemma_dec_date_frame(b: Seq<u8>, i: int, d: Date)
    requires
        0 <= i,
        i + 10 <= b.len(),
        b.subrange(i, i + 10) == enc_date(d),
    ensures
        dec_date(b, i) == Some((d, i + 10)),
{
    assert(b.subrange(i, i + 8) =~= enc_i32(d.year)) by {
        assert forall|j: int| 0 <= j < 8 implies b.subrange(i, i + 8)[j] == enc_i32(d.year)[j] by {
            assert(b.subrange(i, i + 10)[j] == enc_date(d)[j]);
        }
    }
    lemma_dec_i32_frame(b, i, d.year);
    assert(b[i + 8] == d.month && b[i + 9] == d.day) by {
        assert(b.subrange(i, i + 10)[8] == enc_date(d)[8]);
        assert(b.subrange(i, i + 10)[9] == enc_date(d)[9]);
    }
}

/// Encoding of a cash flow: amount, currency, date.
pub open spec fn enc_cash_flow(cf: CashFlow) -> Seq<u8> {
    enc_i64(cf.amount.amount) + enc_currency(cf.amount.currency) + enc_date(cf.date)
}

/// Reads a cash flow at `i`.
pub open spec fn dec_cash_flow(b: Seq<u8>, i: int) -> Option<(CashFlow, int)> {
    match dec_i64(b, i) {
        Some((amount, j)) => match dec_currency(b, j) {
            Some((currency, j2)) => match dec_date(b, j2) {
                Some((date, j3)) => Some(
                    (CashFlow { amount: CashAmount { amount, currency }, date }, j3),
                ),
                None => None,
            },
            None => None,
        },
        None => None,
    }
}

proof fn lemma_dec_cash_flow_frame(b: Seq<u8>, i: int, cf: CashFlow)
    requires
        0 <= i,
        i + 19 <= b.len(),
        b.subrange(i, i + 19) == enc_cash_flow(cf),
    ensures
        dec_cash_flow(b, i) == Some((cf, i + 19)),
{
    assert(b.subrange(i, i + 8) =~= enc_i64(cf.amount.amount)) by {
        assert forall|j: int| 0 <= j < 8 implies b.subrange(i, i + 8)[j] == enc_i64(
            cf.amount.amount,
        )[j] by {
            assert(b.subrange(i, i + 19)[j] == enc_cash_flow(cf)[j]);
        }
    }
    lemma_dec_i64_frame(b, i, cf.amount.amount);
    assert(b.subrange(i + 8, i + 9) =~= enc_currency(cf.amount.currency)) by {
        assert(b.subrange(i, i + 19)[8] == enc_cash_flow(cf)[8]);
        assert(b.subrange(i + 8, i + 9)[0] == b[i + 8]);
    }
    lemma_dec_currency_frame(b, i + 8, cf.amount.currency);
    assert(b.subrange(i + 9, i + 19) =~= enc_date(cf.date)) by {
        assert forall|j: int| 0 <= j < 10 implies b.subrange(i + 9, i + 19)[j] == enc_date(
            cf.date,
        )[j] by {
            assert(b.subrange(i, i + 19)[j + 9] == enc_cash_flow(cf)[j + 9]);
        }
    }
    lemma_dec_date_frame(b, i + 9, cf.date);
}

/// Encoding of an asset record.
pub open spec fn spec_enc_asset(a: AssetV) -> Seq<u8> {
    enc_str(a.name) + enc_opt_str(a.wkn) + enc_opt_str(a.isin) + enc_opt_str(a.note)
}

/// An asset is encodable when all its strings are.
pub open spec fn asset_ok(a: AssetV) -> bool {
    str_ok(a.name) && opt_str_ok(a.wkn) && opt_str_ok(a.isin) && opt_str_ok(a.note)
}

/// Decoding of an asset record; the buffer must be exactly one encoding.
pub open spec fn spec_dec_asset(b: Seq<u8>) -> Option<AssetV> {
    match dec_str(b, 0) {
        Some((name, i1)) => match dec_opt_str(b, i1) {
            Some((wkn, i2)) => match dec_opt_str(b, i2) {
                Some((isin, i3)) => match dec_opt_str(b, i3) {
                    Some((note, i4)) => if i4 == b.len() {
                        Some(AssetV { name, wkn, isin, note })
                    } else {
                        None
                    },
                    None => None,
                },
                None => None,
            },
            None => None,
        },
        None => None,
    }
}

/// Round-trip: decoding an encoded asset yields the asset back.
pub proof fn lemma_asset_roundtrip(a: AssetV)
    requires
        asset_ok(a),
    ensures
        spec_dec_asset(spec_enc_asset(a)) == Some(a),
{
    let b = spec_enc_asset(a);
    let e1 = enc_str(a.name);
    let e2 = enc_opt_str(a.wkn);
    let e3 = enc_opt_str(a.isin);
    let e4 = enc_opt_str(a.note);
    let i1 = e1.len() as int;
    let i2 = i1 + e2.len();
    let i3 = i2 + e3.len();
    let i4 = i3 + e4.len();
    assert(b.len() == i4);
    assert(b.subrange(0, i1) =~= e1);
    assert(b.subrange(i1, i2) =~= e2);
    assert(b.subrange(i2, i3) =~= e3);
    assert(b.subrange(i3, i4) =~= e4);
    lemma_dec_str_frame(b, 0, a.name);
    lemma_dec_opt_str_frame(b, i1, a.wkn);
    lemma_dec_opt_str_frame(b, i2, a.isin);
    lemma_dec_opt_str_frame(b, i3, a.note);
}

/// Encoding of a ticker record.
pub open spec fn spec_enc_ticker(t: TickerV) -> Seq<u8> {
    enc_str(t.name) + enc_str(t.asset) + enc_currency(t.currency) + enc_i32(t.priority) + enc_i64(
        t.factor,
    )
}

/// A ticker is encodable when all its strings are.
pub open spec fn ticker_ok(t: TickerV) -> bool {
    str_ok(t.name) && str_ok(t.asset)
}

/// Decoding of a ticker record.
pub open spec fn spec_dec_ticker(b: Seq<u8>) -> Option<TickerV> {
    match dec_str(b, 0) {
        Some((name, i1)) => match dec_str(b, i1) {
            Some((asset, i2)) => match dec_currency(b, i2) {
                Some((currency, i3)) => match dec_i32(b, i3) {
                    Some((priority, i4)) => match dec_i64(b, i4) {
                        Some((factor, i5)) => if i5 == b.len() {
                            Some(TickerV { name, asset, currency, priority, factor })
                        } else {
                            None
                        },
                        None => None,
                    },
                    None => None,
                },
                None => None,
            },
            None => None,
        },
        None => None,
    }
}

/// Round-trip: decoding an encoded ticker yields the ticker back.
pub proof fn lemma_ticker_roundtrip(t: TickerV)
    requires
        ticker_ok(t),
    ensures
        spec_dec_ticker(spec_enc_ticker(t)) == Some(t),
{
    let b = spec_enc_ticker(t);
    let e1 = enc_str(t.name);
    let e2 = enc_str(t.asset);
    let e3 = enc_currency(t.currency);
    let e4 = enc_i32(t.priority);
    let e5 = enc_i64(t.factor);
    let i1 = e1.len() as int;
    let i2 = i1 + e2.len();
    let i3 = i2 + e3.len();
    let i4 = i3 + e4.len();
    let i5 = i4 + e5.len();
    assert(b.len() == i5);
    assert(b.subrange(0, i1) =~= e1);
    assert(b.subrange(i1, i2) =~= e2);
    assert(b.subrange(i2, i3) =~= e3);
    assert(b.subrange(i3, i4) =~= e4);
    assert(b.subrange(i4, i5) =~= e5);
    lemma_dec_str_frame(b, 0, t.name);
    lemma_dec_str_frame(b, i1, t.asset);
    lemma_dec_currency_frame(b, i2, t.currency);
    lemma_dec_i32_frame(b, i3, t.priority);
    lemma_dec_i64_frame(b, i4, t.factor);
}

/// Encoding of a quote record.
pub open spec fn spec_enc_quote(q: QuoteV) -> Seq<u8> {
    enc_opt_i64(q.id) + enc_str(q.ticker) + enc_i64(q.price) + enc_i64(q.time) + enc_opt_i64(
        q.volume,
    )
}

/// A quote is encodable when its ticker name is.
pub open spec fn quote_ok(q: QuoteV) -> bool {
    str_ok(q.ticker)
}

/// Decoding of a quote record.
pub open spec fn spec_dec_quote(b: Seq<u8>) -> Option<QuoteV> {
    match dec_opt_i64(b, 0) {
        Some((id, i1)) => match dec_str(b, i1) {
            Some((ticker, i2)) => match dec_i64(b, i2) {
                Some((price, i3)) => match dec_i64(b, i3) {
                    Some((time, i4)) => match dec_opt_i64(b, i4) {
                        Some((volume, i5)) => if i5 == b.len() {
                            Some(QuoteV { id, ticker, price, time, volume })
                        } else {
                            None
                        },
                        None => None,
                    },
                    None => None,
                },
                None => None,
            },
            None => None,
        },
        None => None,
    }
}

/// Round-trip: decoding an encoded quote yields the quote back.
pub proof fn lemma_quote_roundtrip(q: QuoteV)
    requires
        quote_ok(q),
    ensures
        spec_dec_quote(spec_enc_quote(q)) == Some(q),
{
    let b = spec_enc_quote(q);
    let e1 = enc_opt_i64(q.id);
    let e2 = enc_str(q.ticker);
    let e3 = enc_i64(q.price);
    let e4 = enc_i64(q.time);
    let e5 = enc_opt_i64(q.volume);
    let i1 = e1.len() as int;
    let i2 = i1 + e2.len();
    let i3 = i2 + e3.len();
    let i4 = i3 + e4.len();
    let i5 = i4 + e5.len();
    assert(b.len() == i5);
    assert(b.subrange(0, i1) =~= e1);
    assert(b.subrange(i1, i2) =~= e2);
    assert(b.subrange(i2, i3) =~= e3);
    assert(b.subrange(i3, i4) =~= e4);
    assert(b.subrange(i4, i5) =~= e5);
    lemma_dec_opt_i64_frame(b, 0, q.id);
    lemma_dec_str_frame(b, i1, q.ticker);
    lemma_dec_i64_frame(b, i2, q.price);
    lemma_dec_i64_frame(b, i3, q.time);
    lemma_dec_opt_i64_frame(b, i4, q.volume);
}

/// Encoding of a transaction type: a tag byte, then the variant's payload.
pub open spec fn enc_tt(t: TransactionTypeV) -> Seq<u8> {
    match t {
        TransactionTypeV::Cash => seq![0u8],
        TransactionTypeV::Asset { asset_name, position } => seq![1u8] + enc_str(asset_name)
            + enc_i64(position),
        TransactionTypeV::Dividend { asset_name } => seq![2u8] + enc_str(asset_name),
        TransactionTypeV::Interest { asset_name } => seq![3u8] + enc_str(asset_name),
        TransactionTypeV::Tax { transaction_ref } => seq![4u8] + enc_opt_u128(transaction_ref),
        TransactionTypeV::Fee { transaction_ref } => seq![5u8] + enc_opt_u128(transaction_ref),
    }
}

/// A transaction type is encodable when its strings are.
pub open spec fn tt_ok(t: TransactionTypeV) -> bool {
    match t {
        TransactionTypeV::Asset { asset_name, .. } => str_ok(asset_name),
        TransactionTypeV::Dividend { asset_name } => str_ok(asset_name),
        TransactionTypeV::Interest { asset_name } => str_ok(asset_name),
        _ => true,
    }
}

/// Reads a transaction type at `i`.
pub open spec fn dec_tt(b: Seq<u8>, i: int) -> Option<(TransactionTypeV, int)> {
    match dec_byte(b, i) {
        Some((t, j)) => if t == 0 {
            Some((TransactionTypeV::Cash, j))
        } else if t == 1 {
            match dec_str(b, j) {
                Some((asset_name, j2)) => match dec_i64(b, j2) {
                    Some((position, j3)) => Some(
                        (TransactionTypeV::Asset { asset_name, position }, j3),
                    ),
                    None => None,
                },
                None => None,
            }
        } else if t == 2 {
            match dec_str(b, j) {
                Some((asset_name, j2)) => Some((TransactionTypeV::Dividend { asset_name }, j2)),
                None => None,
            }
        } else if t == 3 {
            match dec_str(b, j) {
                Some((asset_name, j2)) => Some((TransactionTypeV::Interest { asset_name }, j2)),
                None => None,
            }
        } else if t == 4 {
            match dec_opt_u128(b, j) {
                Some((transaction_ref, j2)) => Some(
                    (TransactionTypeV::Tax { transaction_ref }, j2),
                ),
                None => None,
            }
        } else if t == 5 {
            match dec_opt_u128(b, j) {
                Some((transaction_ref, j2)) => Some(
                    (TransactionTypeV::Fee { transaction_ref }, j2),
                ),
                None => None,
            }
        } else {
            None
        },
        None => None,
    }
}

proof fn lemma_dec_tt_frame(b: Seq<u8>, i: int, t: TransactionTypeV)
    requires
        tt_ok(t),
        0 <= i,
        i + enc_tt(t).len() <= b.len(),
        b.subrange(i, i + enc_tt(t).len()) == enc_tt(t),
    ensures
        dec_tt(b, i) == Some((t, i + enc_tt(t).len())),
{
    let e = enc_tt(t);
    assert(b[i] == e[0]) by {
        assert(b.subrange(i, i + e.len())[0] == e[0]);
    }
    match t {
        TransactionTypeV::Cash => {
        },
        TransactionTypeV::Asset { asset_name, position } => {
            let l1 = enc_str(asset_name).len() as int;
            assert(b.subrange(i + 1, i + 1 + l1) =~= enc_str(asset_name)) by {
                assert forall|j: int| 0 <= j < l1 implies b.subrange(i + 1, i + 1 + l1)[j]
                    == enc_str(asset_name)[j] by {
                    assert(b.subrange(i, i + e.len())[j + 1] == e[j + 1]);
                }
            }
            lemma_dec_str_frame(b, i + 1, asset_name);
            assert(b.subrange(i + 1 + l1, i + 9 + l1) =~= enc_i64(position)) by {
                assert forall|j: int| 0 <= j < 8 implies b.subrange(i + 1 + l1, i + 9 + l1)[j]
                    == enc_i64(position)[j] by {
                    assert(b.subrange(i, i + e.len())[j + 1 + l1] == e[j + 1 + l1]);
                }
            }
            lemma_dec_i64_frame(b, i + 1 + l1, position);
        },
        TransactionTypeV::Dividend { asset_name } => {
            let l1 = enc_str(asset_name).len() as int;
            assert(b.subrange(i + 1, i + 1 + l1) =~= enc_str(asset_name)) by {
                assert forall|j: int| 0 <= j < l1 implies b.subrange(i + 1, i + 1 + l1)[j]
                    == enc_str(asset_name)[j] by {
                    assert(b.subrange(i, i + e.len())[j + 1] == e[j + 1]);
                }
            }
            lemma_dec_str_frame(b, i + 1, asset_name);
        },
        TransactionTypeV::Interest { asset_name } => {
            let l1 = enc_str(asset_name).len() as int;
            assert(b.subrange(i + 1, i + 1 + l1) =~= enc_str(asset_name)) by {
                assert forall|j: int| 0 <= j < l1 implies b.subrange(i + 1, i + 1 + l1)[j]
                    == enc_str(asset_name)[j] by {
                    assert(b.subrange(i, i + e.len())[j + 1] == e[j + 1]);
                }
            }
            lemma_dec_str_frame(b, i + 1, asset_name);
        },
        TransactionTypeV::Tax { transaction_ref } => {
            let l1 = enc_opt_u128(transaction_ref).len() as int;
            assert(b.subrange(i + 1, i + 1 + l1) =~= enc_opt_u128(transaction_ref)) by {
                assert forall|j: int| 0 <= j < l1 implies b.subrange(i + 1, i + 1 + l1)[j]
                    == enc_opt_u128(transaction_ref)[j] by {
                    assert(b.subrange(i, i + e.len())[j + 1] == e[j + 1]);
                }
            }
            lemma_dec_opt_u128_frame(b, i + 1, transaction_ref);
        },
        TransactionTypeV::Fee { transaction_ref } => {
            let l1 = enc_opt_u128(transaction_ref).len() as int;
            assert(b.subrange(i + 1, i + 1 + l1) =~= enc_opt_u128(transaction_ref)) by {
                assert forall|j: int| 0 <= j < l1 implies b.subrange(i + 1, i + 1 + l1)[j]
                    == enc_opt_u128(transaction_ref)[j] by {
                    assert(b.subrange(i, i + e.len())[j + 1] == e[j + 1]);
                }
            }
            lemma_dec_opt_u128_frame(b, i + 1, transaction_ref);
        },
    }
}

/// Encoding of a transaction record.
pub open spec fn spec_enc_txn(t: TransactionV) -> Seq<u8> {
    enc_u128(t.id) + enc_tt(t.transaction_type) + enc_cash_flow(t.cash_flow) + enc_opt_str(t.note)
}

/// A transaction is encodable when its strings are.
pub open spec fn txn_ok(t: TransactionV) -> bool {
    tt_ok(t.transaction_type) && opt_str_ok(t.note)
}

/// Decoding of a transaction record.
pub open spec fn spec_dec_txn(b: Seq<u8>) -> Option<TransactionV> {
    match dec_u128(b, 0) {
        Some((id, i1)) => match dec_tt(b, i1) {
            Some((transaction_type, i2)) => match dec_cash_flow(b, i2) {
                Some((cash_flow, i3)) => match dec_opt_str(b, i3) {
                    Some((note, i4)) => if i4 == b.len() {
                        Some(TransactionV { id, transaction_type, cash_flow, note })
                    } else {
                        None
                    },
                    None => None,
                },
                None => None,
            },
            None => None,
        },
        None => None,
    }
}

/// Round-trip: decoding an encoded transaction yields the transaction
/// back.
#[verifier::rlimit(100)]
pub proof fn lemma_txn_roundtrip(t: TransactionV)
    requires
        txn_ok(t),
    ensures
        spec_dec_txn(spec_enc_txn(t)) == Some(t),
{
    let b = spec_enc_txn(t);
    let e1 = enc_u128(t.id);
    let e2 = enc_tt(t.transaction_type);
    let e3 = enc_cash_flow(t.cash_flow);
    let e4 = enc_opt_str(t.note);
    let i1 = e1.len() as int;
    let i2 = i1 + e2.len();
    let i3 = i2 + e3.len();
    let i4 = i3 + e4.len();
    assert(b.len() == i4);
    assert(b.subrange(0, i1) =~= e1);
    assert(b.subrange(i1, i2) =~= e2);
    assert(b.subrange(i2, i3) =~= e3);
    assert(b.subrange(i3, i4) =~= e4);
    lemma_dec_u128_frame(b, 0, t.id);
    lemma_dec_tt_frame(b, i1, t.transaction_type);
    lemma_dec_cash_flow_frame(b, i2, t.cash_flow);
    lemma_dec_opt_str_frame(b, i3, t.note);
}

/// Encodes an asset record.
pub fn enc_asset(a: &Asset) -> (r: Vec<u8>)
    ensures
        r@ == spec_enc_asset(a@),
{
    let mut out: Vec<u8> = Vec::new();
    write_str(&mut out, a.name.as_str());
    write_opt_str(&mut out, &a.wkn);
    write_opt_str(&mut out, &a.isin);
    write_opt_str(&mut out, &a.note);
    proof {
        assert(out@ =~= spec_enc_asset(a@));
    }
    out
}

/// Decodes an asset record; `None` on any malformed buffer.
pub fn dec_asset(b: &Vec<u8>) -> (r: Option<Asset>)
    ensures
        match spec_dec_asset(b@) {
            Some(av) => r matches Some(a) && a@ == av,
            None => r is None,
        },
{
    match read_str(b, 0) {
        Some((name, i1)) => match read_opt_str(b, i1) {
            Some((wkn, i2)) => match read_opt_str(b, i2) {
                Some((isin, i3)) => match read_opt_str(b, i3) {
                    Some((note, i4)) => {
                        if i4 == b.len() {
                            Some(Asset { name, wkn, isin, note })
                        } else {
                            None
                        }
                    },
                    None => None,
                },
                None => None,
            },
            None => None,
        },
        None => None,
    }
}

/// Encodes a ticker record.
pub fn enc_ticker(t: &Ticker) -> (r: Vec<u8>)
    ensures
        r@ == spec_enc_ticker(t@),
{
    let mut out: Vec<u8> = Vec::new();
    write_str(&mut out, t.name.as_str());
    write_str(&mut out, t.asset.as_str());
    out.push(currency_code(t.currency));
    write_i64(&mut out, t.priority as i64);
    write_i64(&mut out, t.factor);
    proof {
        assert(out@ =~= spec_enc_ticker(t@));
    }
    out
}

/// Decodes a ticker record; `None` on any malformed buffer.
pub fn dec_ticker(b: &Vec<u8>) -> (r: Option<Ticker>)
    ensures
        match spec_dec_ticker(b@) {
            Some(tv) => r matches Some(t) && t@ == tv,
            None => r is None,
        },
{
    match read_str(b, 0) {
        Some((name, i1)) => match read_str(b, i1) {
            Some((asset, i2)) => match read_byte(b, i2) {
                Some((cb, i3)) => match currency_from_code(cb) {
                    Some(currency) => match read_i64(b, i3) {
                        Some((pw, i4)) => {
                            if i32::MIN as i64 <= pw && pw <= i32::MAX as i64 {
                                let priority: i32 = pw as i32;
                                match read_i64(b, i4) {
                                    Some((factor, i5)) => {
                                        if i5 == b.len() {
                                            Some(Ticker { name, asset, currency, priority, factor })
                                        } else {
                                            None
                                        }
                                    },
                                    None => None,
                                }
                            } else {
                                None
                            }
                        },
                        None => None,
                    },
                    None => None,
                },
                None => None,
            },
            None => None,
        },
        None => None,
    }
}

/// Encodes a quote record.
pub fn enc_quote(q: &Quote) -> (r: Vec<u8>)
    ensures
        r@ == spec_enc_quote(q@),
{
    let mut out: Vec<u8> = Vec::new();
    write_opt_i64(&mut out, &q.id);
    write_str(&mut out, q.ticker.as_str());
    write_i64(&mut out, q.price);
    write_i64(&mut out, q.time);
    write_opt_i64(&mut out, &q.volume);
    proof {
        assert(out@ =~= spec_enc_quote(q@));
    }
    out
}

/// Decodes a quote record; `None` on any malformed buffer.
pub fn dec_quote(b: &Vec<u8>) -> (r: Option<Quote>)
    ensures
        match spec_dec_quote(b@) {
            Some(qv) => r matches Some(q) && q@ == qv,
            None => r is None,
        },
{
    match read_opt_i64(b, 0) {
        Some((id, i1)) => match read_str(b, i1) {
            Some((ticker, i2)) => match read_i64(b, i2) {
                Some((price, i3)) => match read_i64(b, i3) {
                    Some((time, i4)) => match read_opt_i64(b, i4) {
                        Some((volume, i5)) => {
                            if i5 == b.len() {
                                Some(Quote { id, ticker, price, time, volume })
                            } else {
                                None
                            }
                        },
                        None => None,
                    },
                    None => None,
                },
                None => None,
            },
            None => None,
        },
        None => None,
    }
}

/// Encodes a transaction record.
pub fn enc_txn(t: &crate::transaction::Transaction) -> (r: Vec<u8>)
    ensures
        r@ == spec_enc_txn(t@),
{
    let mut out: Vec<u8> = Vec::new();
    write_u128(&mut out, t.id);
    match &t.transaction_type {
        crate::transaction::TransactionType::Cash => {
            out.push(0);
        },
        crate::transaction::TransactionType::Asset { asset_name, position } => {
            out.push(1);
            write_str(&mut out, asset_name.as_str());
            write_i64(&mut out, *position);
        },
        crate::transaction::TransactionType::Dividend { asset_name } => {
            out.push(2);
            write_str(&mut out, asset_name.as_str());
        },
        crate::transaction::TransactionType::Interest { asset_name } => {
            out.push(3);
            write_str(&mut out, asset_name.as_str());
        },
        crate::transaction::TransactionType::Tax { transaction_ref } => {
            out.push(4);
            write_opt_u128(&mut out, transaction_ref);
        },
        crate::transaction::TransactionType::Fee { transaction_ref } => {
            out.push(5);
            write_opt_u128(&mut out, transaction_ref);
        },
    }
    proof {
        assert(out@ =~= enc_u128(t.id) + enc_tt(t.transaction_type@));
    }
    write_i64(&mut out, t.cash_flow.amount.amount);
    out.push(currency_code(t.cash_flow.amount.currency));
    write_i64(&mut out, t.cash_flow.date.year as i64);
    out.push(t.cash_flow.date.month);
    out.push(t.cash_flow.date.day);
    proof {
        assert(out@ =~= enc_u128(t.id) + enc_tt(t.transaction_type@) + enc_cash_flow(t.cash_flow));
    }
    write_opt_str(&mut out, &t.note);
    proof {
        assert(out@ =~= spec_enc_txn(t@));
    }
    out
}

/// Decodes a transaction record; `None` on any malformed buffer.
pub fn dec_txn(b: &Vec<u8>) -> (r: Option<crate::transaction::Transaction>)
    ensures
        match spec_dec_txn(b@) {
            Some(tv) => r matches Some(t) && t@ == tv,
            None => r is None,
        },
{
    let id_step = read_u128(b, 0);
    match id_step {
        Some((id, i1)) => {
            let tt_step = read_tt(b, i1);
            match tt_step {
                Some((transaction_type, i2)) => {
                    let cf_step = read_cash_flow(b, i2);
                    match cf_step {
                        Some((cash_flow, i3)) => match read_opt_str(b, i3) {
                            Some((note, i4)) => {
                                if i4 == b.len() {
                                    Some(
                                        crate::transaction::Transaction {
                                            id,
                                            transaction_type,
                                            cash_flow,
                                            note,
                                        },
                                    )
                                } else {
                                    None
                                }
                            },
                            None => None,
                        },
                        None => None,
                    }
                },
                None => None,
            }
        },
        None => None,
    }
}

/// Reads a transaction type at `i`.
fn read_tt(b: &Vec<u8>, i: usize) -> (r: Option<(crate::transaction::TransactionType, usize)>)
    ensures
        match r {
            Some((t, j)) => dec_tt(b@, i as int) matches Some((tv, jv)) && t@ == tv && j == jv,
            None => dec_tt(b@, i as int) is None,
        },
{
    match read_byte(b, i) {
        Some((tag, j)) => {
            if tag == 0 {
                Some((crate::transaction::TransactionType::Cash, j))
            } else if tag == 1 {
                match read_str(b, j) {
                    Some((asset_name, j2)) => match read_i64(b, j2) {
                        Some((position, j3)) => Some(
                            (
                                crate::transaction::TransactionType::Asset {
                                    asset_name,
                                    position,
                                },
                                j3,
                            ),
                        ),
                        None => None,
                    },
                    None => None,
                }
            } else if tag == 2 {
                match read_str(b, j) {
                    Some((asset_name, j2)) => Some(
                        (crate::transaction::TransactionType::Dividend { asset_name }, j2),
                    ),
                    None => None,
                }
            } else if tag == 3 {
                match read_str(b, j) {
                    Some((asset_name, j2)) => Some(
                        (crate::transaction::TransactionType::Interest { asset_name }, j2),
                    ),
                    None => None,
                }
            } else if tag == 4 {
                match read_opt_u128(b, j) {
                    Some((transaction_ref, j2)) => Some(
                        (crate::transaction::TransactionType::Tax { transaction_ref }, j2),
                    ),
                    None => None,
                }
            } else if tag == 5 {
                match read_opt_u128(b, j) {
                    Some((transaction_ref, j2)) => Some(
                        (crate::transaction::TransactionType::Fee { transaction_ref }, j2),
                    ),
                    None => None,
                }
            } else {
                None
            }
        },
        None => None,
    }
}

/// Reads a cash flow at `i`.
fn read_cash_flow(b: &Vec<u8>, i: usize) -> (r: Option<(CashFlow, usize)>)
    ensures
        match r {
            Some((cf, j)) => dec_cash_flow(b@, i as int) == Some((cf, j as int)),
            None => dec_cash_flow(b@, i as int) is None,
        },
{
    match read_i64(b, i) {
        Some((amount, j)) => match read_byte(b, j) {
            Some((cb, j2)) => match currency_from_code(cb) {
                Some(currency) => match read_i64(b, j2) {
                    Some((yw, j3)) => {
                        if i32::MIN as i64 <= yw && yw <= i32::MAX as i64 {
                            let year: i32 = yw as i32;
                            match read_byte(b, j3) {
                                Some((month, j4)) => match read_byte(b, j4) {
                                    Some((day, j5)) => Some(
                                        (
                                            CashFlow {
                                                amount: CashAmount { amount, currency },
                                                date: Date { year, month, day },
                                            },
                                            j5,
                                        ),
                                    ),
                                    None => None,
                                },
                                None => None,
                            }
                        } else {
                            None
                        }
                    },
                    None => None,
                },
                None => None,
            },
            None => None,
        },
        None => None,
    }
}

} // verus!
