//! Cursor iteration engine.
//!
//! A cursor is a lazy, finite, non-restartable sequence of decoded records
//! walked off the store's sorted listing from an anchor position, forward
//! or backward.  It stops at the natural boundary of its partition — the
//! first entry whose key no longer carries the partition prefix — and
//! silently skips entries whose value does not decode, so one corrupt
//! record cannot poison a range scan.

use vstd::prelude::*;

use crate::codec::{dec_quote, dec_txn, spec_dec_quote, spec_dec_txn};
use crate::order::has_prefix;
use crate::quote::{Quote, QuoteV};
use crate::store::KvStore;
use crate::transaction::{Transaction, TransactionV};

verus! {

/// Records of a forward scan from listing position `i`: decoded values of
/// entries whose key carries the prefix `p`, in listing order, stopping at
/// the first entry without the prefix and skipping undecodable values.
pub open spec fn scan_fwd<T>(
    es: Seq<(Seq<u8>, Seq<u8>)>,
    p: Seq<u8>,
    dec: spec_fn(Seq<u8>) -> Option<T>,
    i: int,
) -> Seq<T>
    decreases es.len() - i,
{
    if i < 0 || i >= es.len() {
        Seq::empty()
    } else if !has_prefix(es[i].0, p) {
        Seq::empty()
    } else {
        match dec(es[i].1) {
            Some(q) => seq![q] + scan_fwd(es, p, dec, i + 1),
            None => scan_fwd(es, p, dec, i + 1),
        }
    }
}

/// Records of a reverse scan that starts just below listing position `i`:
/// decoded values of entries at `i - 1`, `i - 2`, ... whose key carries the
/// prefix, in reverse listing order, with the same stop and skip rules.
pub open spec fn scan_rev<T>(
    es: Seq<(Seq<u8>, Seq<u8>)>,
    p: Seq<u8>,
    dec: spec_fn(Seq<u8>) -> Option<T>,
    i: int,
) -> Seq<T>
    decreases i,
{
    if i <= 0 || i > es.len() {
        Seq::empty()
    } else if !has_prefix(es[i - 1].0, p) {
        Seq::empty()
    } else {
        match dec(es[i - 1].1) {
            Some(q) => seq![q] + scan_rev(es, p, dec, i - 1),
            None => scan_rev(es, p, dec, i - 1),
        }
    }
}

/// True when `k` starts with `p`.
pub fn starts_with(k: &Vec<u8>, p: &Vec<u8>) -> (b: bool)
    ensures
        b == has_prefix(k@, p@),
{
    if p.len() > k.len() {
        return false;
    }
    let mut i: usize = 0;
    while i < p.len()
        invariant
            0 <= i <= p.len() <= k.len(),
            forall|j: int| 0 <= j < i ==> k@[j] == p@[j],
        decreases p.len() - i,
    {
        if k[i] != p[i] {
            proof {
                assert(k@.subrange(0, p@.len() as int)[i as int] == k@[i as int]);
            }
            return false;
        }
        i = i + 1;
    }
    proof {
        assert(k@.subrange(0, p@.len() as int) =~= p@);
    }
    true
}

/// A lazy directional cursor over the quotes of one ticker partition.
pub struct QuoteCursor<'a> {
    store: &'a KvStore,
    prefix: Vec<u8>,
    pos: usize,
    forward: bool,
}

impl<'a> QuoteCursor<'a> {
    /// The cursor walks a well-formed store within the listing bounds.
    pub closed spec fn wf(&self) -> bool {
        self.store.wf() && self.pos <= self.store.entry_views().len()
    }

    /// The records this cursor has yet to yield.
    pub closed spec fn remaining(&self) -> Seq<QuoteV> {
        if self.forward {
            scan_fwd(
                self.store.entry_views(),
                self.prefix@,
                |v: Seq<u8>| spec_dec_quote(v),
                self.pos as int,
            )
        } else {
            scan_rev(
                self.store.entry_views(),
                self.prefix@,
                |v: Seq<u8>| spec_dec_quote(v),
                self.pos as int,
            )
        }
    }

    /// Opens a cursor at a listing position.
    pub fn open(store: &'a KvStore, prefix: Vec<u8>, pos: usize, forward: bool) -> (c:
        QuoteCursor<'a>)
        requires
            store.wf(),
            pos <= store.entry_views().len(),
        ensures
            c.wf(),
            c.remaining() == if forward {
                scan_fwd(store.entry_views(), prefix@, |v: Seq<u8>| spec_dec_quote(v), pos as int)
            } else {
                scan_rev(store.entry_views(), prefix@, |v: Seq<u8>| spec_dec_quote(v), pos as int)
            },
    {
        QuoteCursor { store, prefix, pos, forward }
    }

    /// Yields the next record of the scan, or `None` once the partition
    /// boundary has been passed.  The sequence is not restartable.
    pub fn next(&mut self) -> (r: Option<Quote>)
        requires
            old(self).wf(),
        ensures
            final(self).wf(),
            old(self).remaining().len() > 0 ==> (r matches Some(q) && q@ == old(
                self,
            ).remaining()[0] && final(self).remaining() == old(self).remaining().drop_first()),
            old(self).remaining().len() == 0 ==> (r is None && final(self).remaining() == old(
                self,
            ).remaining()),
    {
        let store = self.store;
        if self.forward {
            while self.pos < store.len()
                invariant
                    self.store == store,
                    self.forward,
                    self.wf(),
                    self.remaining() == old(self).remaining(),
                decreases store.entry_views().len() - self.pos,
            {
                let e = store.entry_at(self.pos);
                if !starts_with(&e.0, &self.prefix) {
                    return None;
                }
                let decoded = dec_quote(&e.1);
                proof {
                    assert(self.remaining() == scan_fwd(
                        store.entry_views(),
                        self.prefix@,
                        |v: Seq<u8>| spec_dec_quote(v),
                        self.pos as int,
                    ));
                }
                match decoded {
                    Some(q) => {
                        proof {
                            let rest = scan_fwd(
                                store.entry_views(),
                                self.prefix@,
                                |v: Seq<u8>| spec_dec_quote(v),
                                self.pos + 1,
                            );
                            assert(self.remaining() == seq![q@] + rest);
                            assert((seq![q@] + rest).drop_first() =~= rest);
                        }
                        self.pos = self.pos + 1;
                        return Some(q);
                    },
                    None => {
                        self.pos = self.pos + 1;
                    },
                }
            }
            None
        } else {
            while self.pos > 0
                invariant
                    self.store == store,
                    !self.forward,
                    self.wf(),
                    self.remaining() == old(self).remaining(),
                decreases self.pos,
            {
                let e = store.entry_at(self.pos - 1);
                if !starts_with(&e.0, &self.prefix) {
                    return None;
                }
                let decoded = dec_quote(&e.1);
                proof {
                    assert(self.remaining() == scan_rev(
                        store.entry_views(),
                        self.prefix@,
                        |v: Seq<u8>| spec_dec_quote(v),
                        self.pos as int,
                    ));
                }
                match decoded {
                    Some(q) => {
                        proof {
                            let rest = scan_rev(
                                store.entry_views(),
                                self.prefix@,
                                |v: Seq<u8>| spec_dec_quote(v),
                                self.pos - 1,
                            );
                            assert(self.remaining() == seq![q@] + rest);
                            assert((seq![q@] + rest).drop_first() =~= rest);
                        }
                        self.pos = self.pos - 1;
                        return Some(q);
                    },
                    None => {
                        self.pos = self.pos - 1;
                    },
                }
            }
            None
        }
    }
}

/// A lazy directional cursor over the transactions of one sort-prefix
/// partition.
pub struct TransactionCursor<'a> {
    store: &'a KvStore,
    prefix: Vec<u8>,
    pos: usize,
    forward: bool,
}

impl<'a> TransactionCursor<'a> {
    /// The cursor walks a well-formed store within the listing bounds.
    pub closed spec fn wf(&self) -> bool {
        self.store.wf() && self.pos <= self.store.entry_views().len()
    }

    /// The records this cursor has yet to yield.
    pub closed spec fn remaining(&self) -> Seq<TransactionV> {
        if self.forward {
            scan_fwd(
                self.store.entry_views(),
                self.prefix@,
                |v: Seq<u8>| spec_dec_txn(v),
                self.pos as int,
            )
        } else {
            scan_rev(
                self.store.entry_views(),
                self.prefix@,
                |v: Seq<u8>| spec_dec_txn(v),
                self.pos as int,
            )
        }
    }

    /// Opens a cursor at a listing position.
    pub fn open(store: &'a KvStore, prefix: Vec<u8>, pos: usize, forward: bool) -> (c:
        TransactionCursor<'a>)
        requires
            store.wf(),
            pos <= store.entry_views().len(),
        ensures
            c.wf(),
            c.remaining() == if forward {
                scan_fwd(store.entry_views(), prefix@, |v: Seq<u8>| spec_dec_txn(v), pos as int)
            } else {
                scan_rev(store.entry_views(), prefix@, |v: Seq<u8>| spec_dec_txn(v), pos as int)
            },
    {
        TransactionCursor { store, prefix, pos, forward }
    }

    /// Yields the next record of the scan, or `None` once the partition
    /// boundary has been passed.  The sequence is not restartable.
    pub fn next(&mut self) -> (r: Option<Transaction>)
        requires
            old(self).wf(),
        ensures
            final(self).wf(),
            old(self).remaining().len() > 0 ==> (r matches Some(t) && t@ == old(
                self,
            ).remaining()[0] && final(self).remaining() == old(self).remaining().drop_first()),
            old(self).remaining().len() == 0 ==> (r is None && final(self).remaining() == old(
                self,
            ).remaining()),
    {
        let store = self.store;
        if self.forward {
            while self.pos < store.len()
                invariant
                    self.store == store,
                    self.forward,
                    self.wf(),
                    self.remaining() == old(self).remaining(),
                decreases store.entry_views().len() - self.pos,
            {
                let e = store.entry_at(self.pos);
                if !starts_with(&e.0, &self.prefix) {
                    return None;
                }
                let decoded = dec_txn(&e.1);
                proof {
                    assert(self.remaining() == scan_fwd(
                        store.entry_views(),
                        self.prefix@,
                        |v: Seq<u8>| spec_dec_txn(v),
                        self.pos as int,
                    ));
                }
                match decoded {
                    Some(t) => {
                        proof {
                            let rest = scan_fwd(
                                store.entry_views(),
                                self.prefix@,
                                |v: Seq<u8>| spec_dec_txn(v),
                                self.pos + 1,
                            );
                            assert(self.remaining() == seq![t@] + rest);
                            assert((seq![t@] + rest).drop_first() =~= rest);
                        }
                        self.pos = self.pos + 1;
                        return Some(t);
                    },
                    None => {
                        self.pos = self.pos + 1;
                    },
                }
            }
            None
        } else {
            while self.pos > 0
                invariant
                    self.store == store,
                    !self.forward,
                    self.wf(),
                    self.remaining() == old(self).remaining(),
                decreases self.pos,
            {
                let e = store.entry_at(self.pos - 1);
                if !starts_with(&e.0, &self.prefix) {
                    return None;
                }
                let decoded = dec_txn(&e.1);
                proof {
                    assert(self.remaining() == scan_rev(
                        store.entry_views(),
                        self.prefix@,
                        |v: Seq<u8>| spec_dec_txn(v),
                        self.pos as int,
                    ));
                }
                match decoded {
                    Some(t) => {
                        proof {
                            let rest = scan_rev(
                                store.entry_views(),
                                self.prefix@,
                                |v: Seq<u8>| spec_dec_txn(v),
                                self.pos - 1,
                            );
                            assert(self.remaining() == seq![t@] + rest);
                            assert((seq![t@] + rest).drop_first() =~= rest);
                        }
                        self.pos = self.pos - 1;
                        return Some(t);
                    },
                    None => {
                        self.pos = self.pos - 1;
                    },
                }
            }
            None
        }
    }
}

} // verus!
