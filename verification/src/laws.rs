//! Laws of the persistence layer, stated over the same spec functions the
//! repository contracts use, and proved once and for all.

use vstd::prelude::*;

use vstd::utf8::encode_utf8;

use crate::asset::AssetV;
use crate::codec::{asset_ok, lemma_asset_roundtrip, lemma_quote_roundtrip, lemma_ticker_roundtrip,
    lemma_txn_roundtrip, quote_ok, spec_dec_asset, spec_dec_quote, spec_dec_ticker, spec_dec_txn,
    spec_enc_asset, spec_enc_quote, spec_enc_ticker, spec_enc_txn, ticker_ok, txn_ok};
use crate::cursor::{scan_fwd, scan_rev};
use crate::keys::{kind_asset, kind_quote, kind_ticker, kind_transaction, lemma_prefix_isolation,
    lemma_quote_key_order, part_prefix, point_key, quote_key, txn_key, valid_name};
use crate::order::{has_prefix, lemma_between_same_prefix, lemma_lex_irrefl, lemma_lex_trans,
    lex_less};
use crate::quote::QuoteV;
use crate::store::{find_key, lb_of, lemma_find_key, lemma_lb_props, lemma_put_props,
    sorted_entries, spec_put, ub_of};
use crate::transaction::TransactionV;

verus! {

/// After storing `v` under `k`, the listing holds `(k, v)` at the position
/// `find_key` reports, and at no other position.
pub proof fn lemma_put_find(es: Seq<(Seq<u8>, Seq<u8>)>, k: Seq<u8>, v: Seq<u8>)
    requires
        sorted_entries(es),
    ensures
        ({
            let es1 = spec_put(es, k, v);
            let f = find_key(es1, k);
            &&& f < es1.len()
            &&& es1[f] == (k, v)
            &&& forall|i: int| 0 <= i < es1.len() ==> (((#[trigger] es1[i]).0 == k) <==> i == f)
        }),
{
    lemma_put_props(es, k, v);
    let es1 = spec_put(es, k, v);
    assert(sorted_entries(es1));
    lemma_lb_props(es1, k);
    lemma_find_key(es1, k);
    let w = choose|i: int| 0 <= i < es1.len() && es1[i] == (k, v);
    assert(0 <= w < es1.len() && es1[w] == (k, v));
    assert(es1[w].0 == k);
    assert(find_key(es1, k) < es1.len());
    let f = find_key(es1, k);
    assert(es1[f].0 == k);
    lemma_sorted_key_unique(es1, w, f);
    assert(es1[f] == (k, v));
    assert forall|i: int| 0 <= i < es1.len() implies (((#[trigger] es1[i]).0 == k) <==> i == f) by {
        if es1[i].0 == k {
            lemma_sorted_key_unique(es1, i, f);
        }
    }
}

/// A sorted listing holds each key at most once.
pub proof fn lemma_sorted_key_unique(es: Seq<(Seq<u8>, Seq<u8>)>, i: int, j: int)
    requires
        sorted_entries(es),
        0 <= i < es.len(),
        0 <= j < es.len(),
        es[i].0 == es[j].0,
    ensures
        i == j,
{
    lemma_lex_irrefl(es[i].0);
    if i < j {
        assert(0 <= i < j < es.len());
        assert(lex_less(es[i].0, es[j].0));
    } else if j < i {
        assert(0 <= j < i < es.len());
        assert(lex_less(es[j].0, es[i].0));
    }
}

/// Round-trip law for assets: after an insert, the lookup of the same name
/// finds exactly one record, equal to the one inserted.
pub proof fn lemma_asset_insert_get(es: Seq<(Seq<u8>, Seq<u8>)>, a: AssetV)
    requires
        sorted_entries(es),
        asset_ok(a),
    ensures
        ({
            let k = point_key(kind_asset(), encode_utf8(a.name));
            let es1 = spec_put(es, k, spec_enc_asset(a));
            let f = find_key(es1, k);
            &&& f < es1.len()
            &&& spec_dec_asset(es1[f].1) == Some(a)
        }),
{
    let k = point_key(kind_asset(), encode_utf8(a.name));
    lemma_put_find(es, k, spec_enc_asset(a));
    lemma_asset_roundtrip(a);
}

/// Round-trip law for tickers.
pub proof fn lemma_ticker_insert_get(es: Seq<(Seq<u8>, Seq<u8>)>, t: crate::quote::TickerV)
    requires
        sorted_entries(es),
        ticker_ok(t),
    ensures
        ({
            let k = point_key(kind_ticker(), encode_utf8(t.name));
            let es1 = spec_put(es, k, spec_enc_ticker(t));
            let f = find_key(es1, k);
            &&& f < es1.len()
            &&& spec_dec_ticker(es1[f].1) == Some(t)
        }),
{
    let k = point_key(kind_ticker(), encode_utf8(t.name));
    lemma_put_find(es, k, spec_enc_ticker(t));
    lemma_ticker_roundtrip(t);
}

/// Round-trip law for quotes: the stored value under a quote's key decodes
/// back to the quote.
pub proof fn lemma_quote_insert_get(es: Seq<(Seq<u8>, Seq<u8>)>, q: QuoteV)
    requires
        sorted_entries(es),
        quote_ok(q),
    ensures
        ({
            let k = quote_key(encode_utf8(q.ticker), q.time, q.seq_id());
            let es1 = spec_put(es, k, spec_enc_quote(q));
            let f = find_key(es1, k);
            &&& f < es1.len()
            &&& spec_dec_quote(es1[f].1) == Some(q)
        }),
{
    let k = quote_key(encode_utf8(q.ticker), q.time, q.seq_id());
    lemma_put_find(es, k, spec_enc_quote(q));
    lemma_quote_roundtrip(q);
}

/// Round-trip law for transactions.
pub proof fn lemma_txn_insert_get(es: Seq<(Seq<u8>, Seq<u8>)>, sp: Seq<u8>, t: TransactionV)
    requires
        sorted_entries(es),
        txn_ok(t),
    ensures
        ({
            let k = txn_key(sp, t.id);
            let es1 = spec_put(es, k, spec_enc_txn(t));
            let f = find_key(es1, k);
            &&& f < es1.len()
            &&& spec_dec_txn(es1[f].1) == Some(t)
        }),
{
    let k = txn_key(sp, t.id);
    lemma_put_find(es, k, spec_enc_txn(t));
    lemma_txn_roundtrip(t);
}

/// Upsert idempotence: storing an asset twice under one name — with the
/// same or different field values — leaves exactly one record of that name,
/// holding the fields stored last.
pub proof fn lemma_upsert_idempotent(
    es: Seq<(Seq<u8>, Seq<u8>)>,
    name: Seq<char>,
    a1: AssetV,
    a2: AssetV,
)
    requires
        sorted_entries(es),
        a1.name == name,
        a2.name == name,
        asset_ok(a2),
    ensures
        ({
            let k = point_key(kind_asset(), encode_utf8(name));
            let es2 = spec_put(spec_put(es, k, spec_enc_asset(a1)), k, spec_enc_asset(a2));
            let f = find_key(es2, k);
            &&& f < es2.len()
            &&& (forall|i: int| 0 <= i < es2.len() ==> (((#[trigger] es2[i]).0 == k) <==> i == f))
            &&& spec_dec_asset(es2[f].1) == Some(a2)
        }),
{
    let k = point_key(kind_asset(), encode_utf8(name));
    lemma_put_props(es, k, spec_enc_asset(a1));
    lemma_put_find(spec_put(es, k, spec_enc_asset(a1)), k, spec_enc_asset(a2));
    lemma_asset_roundtrip(a2);
}

/// Partition isolation at the key level: a transaction key of one sort
/// prefix never matches a different partition's prefix, so a scan scoped to
/// the other partition never reaches it.
pub proof fn lemma_txn_partition_isolation(pa: Seq<u8>, pb: Seq<u8>, id: u128)
    requires
        valid_name(pa),
        valid_name(pb),
        pa != pb,
    ensures
        !has_prefix(txn_key(pa, id), part_prefix(kind_transaction(), pb)),
{
    let rest = crate::order::be8(crate::keys::id_hi(id)) + crate::order::be8(
        crate::keys::id_lo(id),
    );
    assert(txn_key(pa, id) == part_prefix(kind_transaction(), pa) + rest);
    lemma_prefix_isolation(kind_transaction(), pb, pa, rest);
}

/// Every record a forward scan yields decodes from an entry of the scanned
/// partition: one whose key carries the partition prefix.
pub proof fn lemma_scan_fwd_in_partition<T>(
    es: Seq<(Seq<u8>, Seq<u8>)>,
    p: Seq<u8>,
    dec: spec_fn(Seq<u8>) -> Option<T>,
    i: int,
)
    ensures
        forall|n: int|
            0 <= n < scan_fwd(es, p, dec, i).len() ==> exists|j: int|
                0 <= j < es.len() && has_prefix(es[j].0, p) && dec(es[j].1) == Some(
                    #[trigger] scan_fwd(es, p, dec, i)[n],
                ),
    decreases es.len() - i,
{
    if i < 0 || i >= es.len() || !has_prefix(es[i].0, p) {
    } else {
        lemma_scan_fwd_in_partition(es, p, dec, i + 1);
        let rest = scan_fwd(es, p, dec, i + 1);
        match dec(es[i].1) {
            Some(q) => {
                assert forall|n: int|
                    0 <= n < scan_fwd(es, p, dec, i).len() implies exists|j: int|
                    0 <= j < es.len() && has_prefix(es[j].0, p) && dec(es[j].1) == Some(
                        #[trigger] scan_fwd(es, p, dec, i)[n],
                    ) by {
                    if n == 0 {
                        assert(scan_fwd(es, p, dec, i)[0] == q);
                        assert(dec(es[i].1) == Some(scan_fwd(es, p, dec, i)[n]));
                    } else {
                        assert(scan_fwd(es, p, dec, i)[n] == rest[n - 1]);
                    }
                }
            },
            None => {
            },
        }
    }
}

/// Every record a reverse scan yields decodes from an entry of the scanned
/// partition.
pub proof fn lemma_scan_rev_in_partition<T>(
    es: Seq<(Seq<u8>, Seq<u8>)>,
    p: Seq<u8>,
    dec: spec_fn(Seq<u8>) -> Option<T>,
    i: int,
)
    ensures
        forall|n: int|
            0 <= n < scan_rev(es, p, dec, i).len() ==> exists|j: int|
                0 <= j < es.len() && has_prefix(es[j].0, p) && dec(es[j].1) == Some(
                    #[trigger] scan_rev(es, p, dec, i)[n],
                ),
    decreases i,
{
    if i <= 0 || i > es.len() || !has_prefix(es[i - 1].0, p) {
    } else {
        lemma_scan_rev_in_partition(es, p, dec, i - 1);
        let rest = scan_rev(es, p, dec, i - 1);
        match dec(es[i - 1].1) {
            Some(q) => {
                assert forall|n: int|
                    0 <= n < scan_rev(es, p, dec, i).len() implies exists|j: int|
                    0 <= j < es.len() && has_prefix(es[j].0, p) && dec(es[j].1) == Some(
                        #[trigger] scan_rev(es, p, dec, i)[n],
                    ) by {
                    if n == 0 {
                        assert(scan_rev(es, p, dec, i)[0] == q);
                        assert(dec(es[i - 1].1) == Some(scan_rev(es, p, dec, i)[n]));
                    } else {
                        assert(scan_rev(es, p, dec, i)[n] == rest[n - 1]);
                    }
                }
            },
            None => {
            },
        }
    }
}

/// A forward scan over a block of entries that all carry the prefix and
/// all decode yields exactly the decoded values, in listing order.
pub proof fn lemma_scan_fwd_exact<T>(
    es: Seq<(Seq<u8>, Seq<u8>)>,
    p: Seq<u8>,
    dec: spec_fn(Seq<u8>) -> Option<T>,
    xs: Seq<T>,
    lo: int,
)
    requires
        0 <= lo,
        lo + xs.len() <= es.len(),
        forall|n: int|
            0 <= n < xs.len() ==> has_prefix((#[trigger] es[lo + n]).0, p) && dec(es[lo + n].1)
                == Some(xs[n]),
        lo + xs.len() < es.len() ==> !has_prefix(es[lo + xs.len()].0, p),
    ensures
        scan_fwd(es, p, dec, lo) == xs,
    decreases xs.len(),
{
    if xs.len() == 0 {
        assert(scan_fwd(es, p, dec, lo) =~= xs);
    } else {
        assert(es[lo + 0] == es[lo]);
        let tail = xs.drop_first();
        assert forall|n: int|
            0 <= n < tail.len() implies has_prefix((#[trigger] es[lo + 1 + n]).0, p) && dec(
            es[lo + 1 + n].1,
        ) == Some(tail[n]) by {
            assert(es[lo + (n + 1)] == es[lo + 1 + n]);
            assert(tail[n] == xs[n + 1]);
        }
        lemma_scan_fwd_exact(es, p, dec, tail, lo + 1);
        assert(scan_fwd(es, p, dec, lo) == seq![xs[0]] + tail);
        assert(seq![xs[0]] + tail =~= xs);
    }
}

/// A reverse scan that starts just past such a block yields exactly the
/// decoded values, in reverse listing order.
pub proof fn lemma_scan_rev_exact<T>(
    es: Seq<(Seq<u8>, Seq<u8>)>,
    p: Seq<u8>,
    dec: spec_fn(Seq<u8>) -> Option<T>,
    xs: Seq<T>,
    lo: int,
)
    requires
        0 <= lo,
        lo + xs.len() <= es.len(),
        forall|n: int|
            0 <= n < xs.len() ==> has_prefix((#[trigger] es[lo + n]).0, p) && dec(es[lo + n].1)
                == Some(xs[n]),
        lo > 0 ==> !has_prefix(es[lo - 1].0, p),
    ensures
        scan_rev(es, p, dec, lo + xs.len()) == xs.reverse(),
    decreases xs.len(),
{
    if xs.len() == 0 {
        assert(scan_rev(es, p, dec, lo) =~= xs.reverse());
    } else {
        let front = xs.drop_last();
        let hi = lo + xs.len();
        assert(es[lo + (xs.len() - 1)] == es[hi - 1]);
        assert(dec(es[hi - 1].1) == Some(xs[xs.len() - 1]));
        assert forall|n: int|
            0 <= n < front.len() implies has_prefix((#[trigger] es[lo + n]).0, p) && dec(
            es[lo + n].1,
        ) == Some(front[n]) by {
            assert(front[n] == xs[n]);
        }
        lemma_scan_rev_exact(es, p, dec, front, lo);
        assert(scan_rev(es, p, dec, hi) == seq![xs[xs.len() - 1]] + front.reverse());
        assert(seq![xs[xs.len() - 1]] + front.reverse() =~= xs.reverse());
    }
}

/// A forward scan over a block with one undecodable entry in its middle
/// yields the decodable records on both sides, in order, and does not stop
/// at the corrupt entry.
pub proof fn lemma_scan_fwd_corrupt<T>(
    es: Seq<(Seq<u8>, Seq<u8>)>,
    p: Seq<u8>,
    dec: spec_fn(Seq<u8>) -> Option<T>,
    xs1: Seq<T>,
    xs2: Seq<T>,
    lo: int,
)
    requires
        0 <= lo,
        lo + xs1.len() + 1 + xs2.len() <= es.len(),
        forall|n: int|
            0 <= n < xs1.len() ==> has_prefix((#[trigger] es[lo + n]).0, p) && dec(es[lo + n].1)
                == Some(xs1[n]),
        has_prefix(es[lo + xs1.len()].0, p),
        dec(es[lo + xs1.len()].1) is None,
        forall|n: int|
            0 <= n < xs2.len() ==> has_prefix((#[trigger] es[lo + xs1.len() + 1 + n]).0, p) && dec(
                es[lo + xs1.len() + 1 + n].1,
            ) == Some(xs2[n]),
        lo + xs1.len() + 1 + xs2.len() < es.len() ==> !has_prefix(
            es[lo + xs1.len() + 1 + xs2.len()].0,
            p,
        ),
    ensures
        scan_fwd(es, p, dec, lo) == xs1 + xs2,
    decreases xs1.len(),
{
    if xs1.len() == 0 {
        assert(es[lo + 0] == es[lo]);
        assert(dec(es[lo].1) is None);
        assert forall|n: int|
            0 <= n < xs2.len() implies has_prefix((#[trigger] es[lo + 1 + n]).0, p) && dec(
            es[lo + 1 + n].1,
        ) == Some(xs2[n]) by {
            assert(es[lo + 0 + 1 + n] == es[lo + 1 + n]);
        }
        lemma_scan_fwd_exact(es, p, dec, xs2, lo + 1);
        assert(scan_fwd(es, p, dec, lo) == scan_fwd(es, p, dec, lo + 1));
        assert(xs1 + xs2 =~= xs2);
    } else {
        assert(es[lo + 0] == es[lo]);
        let tail = xs1.drop_first();
        assert forall|n: int|
            0 <= n < tail.len() implies has_prefix((#[trigger] es[lo + 1 + n]).0, p) && dec(
            es[lo + 1 + n].1,
        ) == Some(tail[n]) by {
            assert(es[lo + (n + 1)] == es[lo + 1 + n]);
            assert(tail[n] == xs1[n + 1]);
        }
        assert(es[lo + 1 + tail.len()] == es[lo + xs1.len()]);
        assert forall|n: int|
            0 <= n < xs2.len() implies has_prefix((#[trigger] es[lo + 1 + tail.len() + 1 + n]).0, p)
                && dec(es[lo + 1 + tail.len() + 1 + n].1) == Some(xs2[n]) by {
            assert(es[lo + xs1.len() + 1 + n] == es[lo + 1 + tail.len() + 1 + n]);
        }
        lemma_scan_fwd_corrupt(es, p, dec, tail, xs2, lo + 1);
        assert(scan_fwd(es, p, dec, lo) == seq![xs1[0]] + (tail + xs2));
        assert(seq![xs1[0]] + (tail + xs2) =~= xs1 + xs2);
    }
}

proof fn lemma_lex_asym(a: Seq<u8>, b: Seq<u8>)
    requires
        lex_less(a, b),
    ensures
        !lex_less(b, a),
{
    if lex_less(b, a) {
        lemma_lex_trans(a, b, a);
        lemma_lex_irrefl(a);
    }
}

/// The hypotheses shared by the quote-order laws: the listing is sorted;
/// positions `lo` up to `lo + qs.len()` hold exactly the encodings of the
/// quotes `qs` of ticker `tb`, keyed by strictly increasing
/// `(timestamp, sequence id)` pairs; and the entries on either side of that
/// block are outside the ticker's partition.
pub open spec fn quote_block(
    es: Seq<(Seq<u8>, Seq<u8>)>,
    tb: Seq<u8>,
    qs: Seq<QuoteV>,
    lo: int,
) -> bool {
    &&& sorted_entries(es)
    &&& 0 <= lo
    &&& lo + qs.len() <= es.len()
    &&& (forall|n: int|
        0 <= n < qs.len() ==> quote_ok(#[trigger] qs[n]) && encode_utf8(qs[n].ticker) == tb)
    &&& (forall|a: int, b: int|
        0 <= a < b < qs.len() ==> qs[a].time < qs[b].time || (qs[a].time == qs[b].time
            && qs[a].seq_id() < qs[b].seq_id()))
    &&& (forall|n: int|
        0 <= n < qs.len() ==> #[trigger] es[lo + n] == (
            quote_key(tb, qs[n].time, qs[n].seq_id()),
            spec_enc_quote(qs[n]),
        ))
    &&& (lo > 0 ==> !has_prefix(es[lo - 1].0, part_prefix(kind_quote(), tb)))
    &&& (lo + qs.len() < es.len() ==> !has_prefix(
        es[lo + qs.len()].0,
        part_prefix(kind_quote(), tb),
    ))
}

/// Order preservation, tie-breaking and the inclusive forward anchor in
/// one law: over a partition holding the quotes `qs` in strictly
/// increasing `(timestamp, sequence id)` order, a forward scan anchored at
/// the timestamp of `qs[m]` — the first quote at that timestamp — begins
/// exactly at `qs[m]` and yields `qs[m]`, `qs[m+1]`, ... in exactly that
/// order.  With `m == 0` this is order preservation from the minimum
/// timestamp; quotes tied on timestamp appear in sequence-id order.
#[verifier::rlimit(100)]
pub proof fn lemma_quote_scan_order_fwd(
    es: Seq<(Seq<u8>, Seq<u8>)>,
    tb: Seq<u8>,
    qs: Seq<QuoteV>,
    lo: int,
    m: int,
)
    requires
        quote_block(es, tb, qs, lo),
        0 <= m < qs.len(),
        forall|j: int| 0 <= j < m ==> (#[trigger] qs[j]).time < qs[m].time,
    ensures
        lb_of(es, quote_key(tb, qs[m].time, i64::MIN)) == lo + m,
        scan_fwd(
            es,
            part_prefix(kind_quote(), tb),
            |v: Seq<u8>| spec_dec_quote(v),
            lo + m,
        ) == qs.skip(m),
{
    let p = part_prefix(kind_quote(), tb);
    let anchor = quote_key(tb, qs[m].time, i64::MIN);
    crate::keys::lemma_quote_key_has_prefix(tb, qs[m].time, i64::MIN);
    assert forall|n: int| 0 <= n < qs.len() implies has_prefix((#[trigger] es[lo + n]).0, p) by {
        crate::keys::lemma_quote_key_has_prefix(tb, qs[n].time, qs[n].seq_id());
    }
    // Every key strictly before the anchor position is below the anchor.
    assert forall|j: int| 0 <= j < lo + m implies lex_less((#[trigger] es[j]).0, anchor) by {
        if j >= lo {
            assert(es[lo + (j - lo)] == (
                quote_key(tb, qs[j - lo].time, qs[j - lo].seq_id()),
                spec_enc_quote(qs[j - lo]),
            ));
            assert(es[j].0 == quote_key(tb, qs[j - lo].time, qs[j - lo].seq_id()));
            lemma_quote_key_order(tb, qs[j - lo].time, qs[j - lo].seq_id(), qs[m].time, i64::MIN);
            assert(qs[j - lo].time < qs[m].time);
        } else {
            // Entries below the block are outside the partition, hence
            // below the anchor: anything between the anchor and a block
            // entry would carry the prefix.
            assert(lo > 0);
            assert(es[lo + m] == (
                quote_key(tb, qs[m].time, qs[m].seq_id()),
                spec_enc_quote(qs[m]),
            ));
            crate::keys::lemma_quote_key_has_prefix(tb, qs[m].time, qs[m].seq_id());
            if !lex_less(es[lo - 1].0, anchor) {
                assert(lex_less(es[lo - 1].0, es[lo + m].0));
                lemma_lex_asym(es[lo - 1].0, es[lo + m].0);
                lemma_between_same_prefix(p, anchor, es[lo - 1].0, es[lo + m].0);
            }
            if j < lo - 1 {
                lemma_lex_trans(es[j].0, es[lo - 1].0, anchor);
            }
        }
    }
    assert(!lex_less(es[lo + m].0, anchor)) by {
        assert(es[lo + m] == (
            quote_key(tb, qs[m].time, qs[m].seq_id()),
            spec_enc_quote(qs[m]),
        ));
        lemma_quote_key_order(tb, qs[m].time, qs[m].seq_id(), qs[m].time, i64::MIN);
    }
    crate::store::lemma_lb_unique(es, anchor, lo + m);
    let xs = qs.skip(m);
    assert forall|n: int|
        0 <= n < xs.len() implies has_prefix((#[trigger] es[lo + m + n]).0, p) && spec_dec_quote(
        es[lo + m + n].1,
    ) == Some(xs[n]) by {
        assert(es[lo + (m + n)] == es[lo + m + n]);
        assert(xs[n] == qs[m + n]);
        lemma_quote_roundtrip(qs[m + n]);
    }
    assert(lo + m + xs.len() == lo + qs.len());
    lemma_scan_fwd_exact(es, p, |v: Seq<u8>| spec_dec_quote(v), xs, lo + m);
}

/// The reverse twin: a reverse scan anchored inclusively at the timestamp
/// of `qs[m]` — the last quote at that timestamp — begins exactly at
/// `qs[m]` and yields `qs[m]`, `qs[m-1]`, ..., `qs[0]`: the exact reverse
/// of insertion order.  With `m == qs.len() - 1` this is order reversal
/// from the maximum timestamp.
#[verifier::rlimit(100)]
pub proof fn lemma_quote_scan_order_rev(
    es: Seq<(Seq<u8>, Seq<u8>)>,
    tb: Seq<u8>,
    qs: Seq<QuoteV>,
    lo: int,
    m: int,
)
    requires
        quote_block(es, tb, qs, lo),
        0 <= m < qs.len(),
        forall|j: int| m < j < qs.len() ==> qs[m].time < (#[trigger] qs[j]).time,
    ensures
        ub_of(es, quote_key(tb, qs[m].time, i64::MAX)) == lo + m + 1,
        scan_rev(
            es,
            part_prefix(kind_quote(), tb),
            |v: Seq<u8>| spec_dec_quote(v),
            lo + m + 1,
        ) == qs.take(m + 1).reverse(),
{
    let p = part_prefix(kind_quote(), tb);
    let anchor = quote_key(tb, qs[m].time, i64::MAX);
    crate::keys::lemma_quote_key_has_prefix(tb, qs[m].time, i64::MAX);
    assert forall|n: int| 0 <= n < qs.len() implies has_prefix((#[trigger] es[lo + n]).0, p) by {
        crate::keys::lemma_quote_key_has_prefix(tb, qs[n].time, qs[n].seq_id());
    }
    // Every key up to and including position lo + m is at or below the
    // anchor.
    assert forall|j: int| 0 <= j < lo + m + 1 implies !lex_less(anchor, (#[trigger] es[j]).0) by {
        if j >= lo {
            assert(es[lo + (j - lo)] == (
                quote_key(tb, qs[j - lo].time, qs[j - lo].seq_id()),
                spec_enc_quote(qs[j - lo]),
            ));
            assert(es[j].0 == quote_key(tb, qs[j - lo].time, qs[j - lo].seq_id()));
            if j - lo < m {
                assert(qs[j - lo].time < qs[m].time || (qs[j - lo].time == qs[m].time && qs[j
                    - lo].seq_id() < qs[m].seq_id()));
            }
            lemma_quote_key_order(tb, qs[m].time, i64::MAX, qs[j - lo].time, qs[j - lo].seq_id());
            assert(qs[j - lo].time <= qs[m].time);
        } else {
            // Entries below the block sit below every block key, and the
            // block key at lo is at or below the anchor.
            assert(lo > 0);
            assert(lex_less(es[j].0, es[lo + m].0));
            assert(es[lo + m] == (
                quote_key(tb, qs[m].time, qs[m].seq_id()),
                spec_enc_quote(qs[m]),
            ));
            lemma_quote_key_order(tb, qs[m].time, i64::MAX, qs[m].time, qs[m].seq_id());
            assert(!lex_less(anchor, es[lo + m].0));
            if lex_less(anchor, es[j].0) {
                lemma_lex_trans(anchor, es[j].0, es[lo + m].0);
            }
        }
    }
    if lo + m + 1 < es.len() {
        assert(lex_less(anchor, es[lo + m + 1].0)) by {
            if lo + m + 1 < lo + qs.len() {
                assert(es[lo + (m + 1)] == (
                    quote_key(tb, qs[m + 1].time, qs[m + 1].seq_id()),
                    spec_enc_quote(qs[m + 1]),
                ));
                lemma_quote_key_order(
                    tb,
                    qs[m].time,
                    i64::MAX,
                    qs[m + 1].time,
                    qs[m + 1].seq_id(),
                );
                assert(qs[m].time < qs[m + 1].time);
            } else {
                // The entry just past the block is outside the partition;
                // were it at or below the anchor, it would lie between two
                // prefix-carrying keys.
                assert(!has_prefix(es[lo + m + 1].0, p));
                if !lex_less(anchor, es[lo + m + 1].0) {
                    assert(es[lo + m] == (
                        quote_key(tb, qs[m].time, qs[m].seq_id()),
                        spec_enc_quote(qs[m]),
                    ));
                    crate::keys::lemma_quote_key_has_prefix(tb, qs[m].time, qs[m].seq_id());
                    assert(lex_less(es[lo + m].0, es[lo + m + 1].0));
                    lemma_lex_asym(es[lo + m].0, es[lo + m + 1].0);
                    lemma_between_same_prefix(p, es[lo + m].0, es[lo + m + 1].0, anchor);
                }
            }
        }
    }
    crate::store::lemma_ub_unique(es, anchor, lo + m + 1);
    let xs = qs.take(m + 1);
    assert forall|n: int|
        0 <= n < xs.len() implies has_prefix((#[trigger] es[lo + n]).0, p) && spec_dec_quote(
        es[lo + n].1,
    ) == Some(xs[n]) by {
        assert(xs[n] == qs[n]);
        lemma_quote_roundtrip(qs[n]);
    }
    lemma_scan_rev_exact(es, p, |v: Seq<u8>| spec_dec_quote(v), xs, lo);
    assert(lo + xs.len() == lo + m + 1);
}

/// Partition isolation, end to end: after a record is stored under a
/// transaction key of sort prefix `pa`, everything a scan scoped to a
/// different sort prefix `pb` can yield decodes from an entry of `pb`'s
/// partition that was already stored beforehand — the new record is
/// invisible there, whatever the ids.
pub proof fn lemma_txn_insert_isolated<T>(
    es: Seq<(Seq<u8>, Seq<u8>)>,
    pa: Seq<u8>,
    pb: Seq<u8>,
    id: u128,
    va: Seq<u8>,
    dec: spec_fn(Seq<u8>) -> Option<T>,
    i: int,
)
    requires
        sorted_entries(es),
        valid_name(pa),
        valid_name(pb),
        pa != pb,
    ensures
        ({
            let es1 = spec_put(es, txn_key(pa, id), va);
            let p = part_prefix(kind_transaction(), pb);
            &&& forall|n: int|
                0 <= n < scan_fwd(es1, p, dec, i).len() ==> exists|j: int|
                    0 <= j < es.len() && has_prefix(es[j].0, p) && dec(es[j].1) == Some(
                        #[trigger] scan_fwd(es1, p, dec, i)[n],
                    )
            &&& forall|n: int|
                0 <= n < scan_rev(es1, p, dec, i).len() ==> exists|j: int|
                    0 <= j < es.len() && has_prefix(es[j].0, p) && dec(es[j].1) == Some(
                        #[trigger] scan_rev(es1, p, dec, i)[n],
                    )
        }),
{
    let ka = txn_key(pa, id);
    let es1 = spec_put(es, ka, va);
    let p = part_prefix(kind_transaction(), pb);
    lemma_put_props(es, ka, va);
    lemma_txn_partition_isolation(pa, pb, id);
    lemma_scan_fwd_in_partition(es1, p, dec, i);
    lemma_scan_rev_in_partition(es1, p, dec, i);
    assert forall|n: int| 0 <= n < scan_fwd(es1, p, dec, i).len() implies exists|j: int|
        0 <= j < es.len() && has_prefix(es[j].0, p) && dec(es[j].1) == Some(
            #[trigger] scan_fwd(es1, p, dec, i)[n],
        ) by {
        let x = scan_fwd(es1, p, dec, i)[n];
        let j1 = choose|j: int|
            0 <= j < es1.len() && has_prefix(es1[j].0, p) && dec(es1[j].1) == Some(x);
        assert(es1[j1] == (ka, va) || (es1[j1].0 != ka && exists|j: int|
            0 <= j < es.len() && es[j] == es1[j1]));
        if es1[j1] == (ka, va) {
            assert(has_prefix(ka, p));
        } else {
            let j0 = choose|j: int| 0 <= j < es.len() && es[j] == es1[j1];
            assert(0 <= j0 < es.len() && has_prefix(es[j0].0, p) && dec(es[j0].1) == Some(x));
        }
    }
    assert forall|n: int| 0 <= n < scan_rev(es1, p, dec, i).len() implies exists|j: int|
        0 <= j < es.len() && has_prefix(es[j].0, p) && dec(es[j].1) == Some(
            #[trigger] scan_rev(es1, p, dec, i)[n],
        ) by {
        let x = scan_rev(es1, p, dec, i)[n];
        let j1 = choose|j: int|
            0 <= j < es1.len() && has_prefix(es1[j].0, p) && dec(es1[j].1) == Some(x);
        assert(es1[j1] == (ka, va) || (es1[j1].0 != ka && exists|j: int|
            0 <= j < es.len() && es[j] == es1[j1]));
        if es1[j1] == (ka, va) {
            assert(has_prefix(ka, p));
        } else {
            let j0 = choose|j: int| 0 <= j < es.len() && es[j] == es1[j1];
            assert(0 <= j0 < es.len() && has_prefix(es[j0].0, p) && dec(es[j0].1) == Some(x));
        }
    }
}

/// The reverse twin: a reverse scan that starts just past a block with one
/// undecodable entry in its middle yields the decodable records on both
/// sides, in reverse listing order, and does not stop at the corrupt
/// entry.
pub proof fn lemma_scan_rev_corrupt<T>(
    es: Seq<(Seq<u8>, Seq<u8>)>,
    p: Seq<u8>,
    dec: spec_fn(Seq<u8>) -> Option<T>,
    xs1: Seq<T>,
    xs2: Seq<T>,
    lo: int,
)
    requires
        0 <= lo,
        lo + xs1.len() + 1 + xs2.len() <= es.len(),
        forall|n: int|
            0 <= n < xs1.len() ==> has_prefix((#[trigger] es[lo + n]).0, p) && dec(es[lo + n].1)
                == Some(xs1[n]),
        has_prefix(es[lo + xs1.len()].0, p),
        dec(es[lo + xs1.len()].1) is None,
        forall|n: int|
            0 <= n < xs2.len() ==> has_prefix((#[trigger] es[lo + xs1.len() + 1 + n]).0, p) && dec(
                es[lo + xs1.len() + 1 + n].1,
            ) == Some(xs2[n]),
        lo > 0 ==> !has_prefix(es[lo - 1].0, p),
    ensures
        scan_rev(es, p, dec, lo + xs1.len() + 1 + xs2.len()) == (xs1 + xs2).reverse(),
    decreases xs2.len(),
{
    let hi = lo + xs1.len() + 1 + xs2.len();
    if xs2.len() == 0 {
        assert(es[lo + xs1.len() + 1 + 0] == es[lo + xs1.len() + 1]) by {
        }
        assert(hi - 1 == lo + xs1.len());
        assert(dec(es[hi - 1].1) is None);
        lemma_scan_rev_exact(es, p, dec, xs1, lo);
        assert(scan_rev(es, p, dec, hi) == scan_rev(es, p, dec, hi - 1));
        assert((xs1 + xs2).reverse() =~= xs1.reverse()) by {
            assert(xs1 + xs2 =~= xs1);
        }
    } else {
        let front = xs2.drop_last();
        assert(es[lo + xs1.len() + 1 + (xs2.len() - 1)] == es[hi - 1]);
        assert(dec(es[hi - 1].1) == Some(xs2[xs2.len() - 1]));
        assert forall|n: int|
            0 <= n < front.len() implies has_prefix((#[trigger] es[lo + xs1.len() + 1 + n]).0, p)
                && dec(es[lo + xs1.len() + 1 + n].1) == Some(front[n]) by {
            assert(front[n] == xs2[n]);
        }
        lemma_scan_rev_corrupt(es, p, dec, xs1, front, lo);
        assert(scan_rev(es, p, dec, hi) == seq![xs2[xs2.len() - 1]] + scan_rev(
            es,
            p,
            dec,
            hi - 1,
        ));
        assert(seq![xs2[xs2.len() - 1]] + (xs1 + front).reverse() =~= (xs1 + xs2).reverse());
    }
}

} // verus!
