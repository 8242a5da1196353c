//! A verified ordered key-value store.
//!
//! The store keeps its entries as a vector sorted strictly ascending by
//! byte-lexicographic key order, which is exactly the iteration order an
//! ordered embedded engine exposes.  Every operation is specified against
//! the sorted listing of `(key, value)` pairs: point reads and writes touch
//! the unique entry of a key, and cursors walk the listing in either
//! direction.

use vstd::prelude::*;

use crate::order::{lemma_lex_common_prefix, lemma_lex_irrefl, lemma_lex_total, lemma_lex_trans, lex_less};

verus! {

/// The sorted listing of a store: strictly ascending keys, hence no
/// duplicate key anywhere.
pub open spec fn sorted_entries(es: Seq<(Seq<u8>, Seq<u8>)>) -> bool {
    forall|i: int, j: int| 0 <= i < j < es.len() ==> lex_less(es[i].0, es[j].0)
}

/// Index of the first entry whose key is at or after `k`; equals the length
/// when every key is below `k`.  On a sorted listing this is the seek
/// position of `k`.
pub open spec fn lb_of(es: Seq<(Seq<u8>, Seq<u8>)>, k: Seq<u8>) -> int
    decreases es.len(),
{
    if es.len() == 0 {
        0
    } else if lex_less(es[0].0, k) {
        1 + lb_of(es.drop_first(), k)
    } else {
        0
    }
}

/// The listing after storing `v` under `k`: the entry of `k` is replaced if
/// present, otherwise `(k, v)` is spliced in at the seek position.
pub open spec fn spec_put(es: Seq<(Seq<u8>, Seq<u8>)>, k: Seq<u8>, v: Seq<u8>) -> Seq<
    (Seq<u8>, Seq<u8>),
> {
    let i = lb_of(es, k);
    if i < es.len() && es[i].0 == k {
        es.update(i, (k, v))
    } else {
        es.subrange(0, i) + seq![(k, v)] + es.subrange(i, es.len() as int)
    }
}

/// The listing after deleting the entry of `k`, if any.
pub open spec fn spec_delete(es: Seq<(Seq<u8>, Seq<u8>)>, k: Seq<u8>) -> Seq<(Seq<u8>, Seq<u8>)> {
    let i = lb_of(es, k);
    if i < es.len() && es[i].0 == k {
        es.remove(i)
    } else {
        es
    }
}

pub proof fn lemma_lb_props(es: Seq<(Seq<u8>, Seq<u8>)>, k: Seq<u8>)
    requires
        sorted_entries(es),
    ensures
        0 <= lb_of(es, k) <= es.len(),
        forall|j: int| 0 <= j < lb_of(es, k) ==> lex_less(es[j].0, k),
        lb_of(es, k) < es.len() ==> !lex_less(es[lb_of(es, k)].0, k),
    decreases es.len(),
{
    if es.len() > 0 && lex_less(es[0].0, k) {
        let tail = es.drop_first();
        assert(sorted_entries(tail)) by {
            assert forall|i: int, j: int| 0 <= i < j < tail.len() implies lex_less(
                tail[i].0,
                tail[j].0,
            ) by {
                assert(tail[i] == es[i + 1] && tail[j] == es[j + 1]);
            }
        }
        lemma_lb_props(tail, k);
        assert forall|j: int| 0 <= j < lb_of(es, k) implies lex_less(es[j].0, k) by {
            if j > 0 {
                assert(tail[j - 1] == es[j]);
            }
        }
        if lb_of(es, k) < es.len() {
            assert(tail[lb_of(es, k) - 1] == es[lb_of(es, k)]);
        }
    }
}

/// Position of the unique entry of key `k`, or the length when absent.
pub open spec fn find_key(es: Seq<(Seq<u8>, Seq<u8>)>, k: Seq<u8>) -> int {
    if lb_of(es, k) < es.len() && es[lb_of(es, k)].0 == k {
        lb_of(es, k)
    } else {
        es.len() as int
    }
}

/// On a sorted listing, `find_key` finds `k` exactly when some entry
/// carries it.
pub proof fn lemma_find_key(es: Seq<(Seq<u8>, Seq<u8>)>, k: Seq<u8>)
    requires
        sorted_entries(es),
    ensures
        (find_key(es, k) < es.len()) == (exists|i: int| 0 <= i < es.len() && es[i].0 == k),
        find_key(es, k) < es.len() ==> es[find_key(es, k)].0 == k,
{
    lemma_lb_props(es, k);
    let lb = lb_of(es, k);
    if lb < es.len() && es[lb].0 == k {
    } else {
        if exists|i: int| 0 <= i < es.len() && es[i].0 == k {
            let i = choose|i: int| 0 <= i < es.len() && es[i].0 == k;
            lemma_lex_irrefl(k);
            if i < lb {
                assert(lex_less(es[i].0, k));
            } else if i > lb && lb < es.len() {
                lemma_lex_total(es[lb].0, k);
                assert(lex_less(k, es[lb].0));
                assert(lex_less(es[lb].0, es[i].0));
                lemma_lex_trans(k, es[lb].0, es[i].0);
            }
        }
    }
}

/// Storing under `k` keeps the listing sorted; the stored pair is present;
/// every other pair is kept unchanged; nothing else appears.
pub proof fn lemma_put_props(es: Seq<(Seq<u8>, Seq<u8>)>, k: Seq<u8>, v: Seq<u8>)
    requires
        sorted_entries(es),
    ensures
        sorted_entries(spec_put(es, k, v)),
        exists|i: int| 0 <= i < spec_put(es, k, v).len() && spec_put(es, k, v)[i] == (k, v),
        forall|i: int|
            0 <= i < spec_put(es, k, v).len() ==> spec_put(es, k, v)[i] == (k, v) || (spec_put(
                es,
                k,
                v,
            )[i].0 != k && exists|j: int| 0 <= j < es.len() && es[j] == spec_put(es, k, v)[i]),
        forall|j: int|
            0 <= j < es.len() && (#[trigger] es[j]).0 != k ==> exists|i: int|
                0 <= i < spec_put(es, k, v).len() && spec_put(es, k, v)[i] == es[j],
{
    lemma_lb_props(es, k);
    let lb = lb_of(es, k);
    let ns = spec_put(es, k, v);
    if lb < es.len() && es[lb].0 == k {
        assert(ns[lb] == (k, v));
        assert forall|i: int, j: int| 0 <= i < j < ns.len() implies lex_less(ns[i].0, ns[j].0) by {
            assert(ns[i].0 == es[i].0 && ns[j].0 == es[j].0);
        }
        assert forall|i: int|
            0 <= i < ns.len() implies ns[i] == (k, v) || (ns[i].0 != k && exists|j: int|
            0 <= j < es.len() && es[j] == ns[i]) by {
            if i != lb {
                assert(ns[i] == es[i]);
                if es[i].0 == k {
                    lemma_lex_irrefl(k);
                    if i < lb {
                        assert(lex_less(es[i].0, k));
                    } else {
                        assert(lex_less(es[lb].0, es[i].0));
                    }
                }
            }
        }
        assert forall|j: int| 0 <= j < es.len() && es[j].0 != k implies exists|i: int|
            0 <= i < ns.len() && ns[i] == es[j] by {
            assert(ns[j] == es[j]);
        }
    } else {
        lemma_lex_irrefl(k);
        if lb < es.len() {
            lemma_lex_total(es[lb].0, k);
            assert(lex_less(k, es[lb].0));
        }
        assert(ns.len() == es.len() + 1);
        assert(ns[lb] == (k, v));
        assert forall|i: int| 0 <= i < ns.len() implies (i < lb ==> ns[i] == es[i]) && (i > lb
            ==> ns[i] == es[i - 1]) by {
            if i < lb {
                assert(ns[i] == es.subrange(0, lb)[i]);
            } else if i > lb {
                assert(ns[i] == es.subrange(lb, es.len() as int)[i - lb - 1]);
            }
        }
        assert forall|i: int, j: int| 0 <= i < j < ns.len() implies lex_less(ns[i].0, ns[j].0) by {
            if i < lb && j == lb {
                assert(lex_less(es[i].0, k));
            } else if i == lb && j > lb {
                if j - 1 > lb {
                    assert(lex_less(es[lb].0, es[j - 1].0));
                    lemma_lex_trans(k, es[lb].0, es[j - 1].0);
                }
            } else if i < lb && j > lb {
                assert(i <= lb - 1 && lb <= j - 1);
                assert(lex_less(es[i].0, es[j - 1].0));
            }
        }
        assert forall|i: int|
            0 <= i < ns.len() implies ns[i] == (k, v) || (ns[i].0 != k && exists|j: int|
            0 <= j < es.len() && es[j] == ns[i]) by {
            if i < lb {
                assert(ns[i] == es[i]);
                assert(lex_less(es[i].0, k));
                lemma_lex_irrefl(k);
            } else if i > lb {
                assert(ns[i] == es[i - 1]);
                if es[i - 1].0 == k {
                    if i - 1 == lb {
                        assert(lex_less(k, es[lb].0));
                    } else {
                        assert(lex_less(es[lb].0, es[i - 1].0));
                        lemma_lex_trans(k, es[lb].0, es[i - 1].0);
                    }
                    lemma_lex_irrefl(k);
                }
            }
        }
        assert forall|j: int| 0 <= j < es.len() && es[j].0 != k implies exists|i: int|
            0 <= i < ns.len() && ns[i] == es[j] by {
            if j < lb {
                assert(ns[j] == es[j]);
            } else {
                assert(ns[j + 1] == es[j]);
            }
        }
    }
}

/// Deleting `k` keeps the listing sorted, removes the entry of `k`, and
/// keeps every other pair.
pub proof fn lemma_delete_props(es: Seq<(Seq<u8>, Seq<u8>)>, k: Seq<u8>)
    requires
        sorted_entries(es),
    ensures
        sorted_entries(spec_delete(es, k)),
        forall|i: int| 0 <= i < spec_delete(es, k).len() ==> spec_delete(es, k)[i].0 != k,
        forall|i: int|
            0 <= i < spec_delete(es, k).len() ==> exists|j: int|
                0 <= j < es.len() && es[j] == (#[trigger] spec_delete(es, k)[i]),
        forall|j: int|
            0 <= j < es.len() && (#[trigger] es[j]).0 != k ==> exists|i: int|
                0 <= i < spec_delete(es, k).len() && spec_delete(es, k)[i] == es[j],
{
    lemma_lb_props(es, k);
    let lb = lb_of(es, k);
    let ns = spec_delete(es, k);
    if lb < es.len() && es[lb].0 == k {
        assert forall|i: int| 0 <= i < ns.len() implies (i < lb ==> ns[i] == es[i]) && (i >= lb
            ==> ns[i] == es[i + 1]) by {}
        assert forall|i: int, j: int| 0 <= i < j < ns.len() implies lex_less(ns[i].0, ns[j].0) by {}
        assert forall|i: int| 0 <= i < ns.len() implies ns[i].0 != k by {
            lemma_lex_irrefl(k);
            if i < lb {
                assert(lex_less(ns[i].0, k));
            } else {
                assert(lex_less(es[lb].0, es[i + 1].0));
            }
        }
        assert forall|j: int| 0 <= j < es.len() && es[j].0 != k implies exists|i: int|
            0 <= i < ns.len() && ns[i] == es[j] by {
            if j < lb {
                assert(ns[j] == es[j]);
            } else if j > lb {
                assert(ns[j - 1] == es[j]);
            }
        }
    } else {
        lemma_find_key(es, k);
        assert forall|i: int| 0 <= i < ns.len() implies ns[i].0 != k by {
            assert(!(exists|j: int| 0 <= j < es.len() && es[j].0 == k));
        }
    }
}


/// Position just past the entry of `k`: entries strictly before it have
/// keys at or below `k`; on a sorted listing this is where a reverse scan
/// anchored inclusively at `k` begins.
pub open spec fn ub_of(es: Seq<(Seq<u8>, Seq<u8>)>, k: Seq<u8>) -> int {
    if lb_of(es, k) < es.len() && es[lb_of(es, k)].0 == k {
        lb_of(es, k) + 1
    } else {
        lb_of(es, k)
    }
}

pub proof fn lemma_ub_props(es: Seq<(Seq<u8>, Seq<u8>)>, k: Seq<u8>)
    requires
        sorted_entries(es),
    ensures
        0 <= ub_of(es, k) <= es.len(),
        forall|j: int| 0 <= j < ub_of(es, k) ==> !lex_less(k, es[j].0),
        ub_of(es, k) < es.len() ==> lex_less(k, es[ub_of(es, k)].0),
{
    lemma_lb_props(es, k);
    let lb = lb_of(es, k);
    let ub = ub_of(es, k);
    assert forall|j: int| 0 <= j < ub implies !lex_less(k, es[j].0) by {
        lemma_lex_irrefl(k);
        if j < lb {
            if lex_less(k, es[j].0) {
                lemma_lex_trans(k, es[j].0, k);
            }
        } else {
            assert(j == lb && es[lb].0 == k);
        }
    }
    if ub < es.len() {
        if ub == lb {
            lemma_lex_total(es[lb].0, k);
        } else {
            assert(es[lb].0 == k);
            assert(lex_less(es[lb].0, es[ub].0));
        }
    }
}

/// Three-way byte-string comparison; the result encodes which side, if any,
/// is lexicographically smaller.
pub fn bytes_cmp(a: &Vec<u8>, b: &Vec<u8>) -> (c: u8)
    ensures
        c == 0 ==> lex_less(a@, b@),
        c == 1 ==> a@ == b@,
        c == 2 ==> lex_less(b@, a@),
        c <= 2,
{
    let mut i: usize = 0;
    while i < a.len() && i < b.len()
        invariant
            0 <= i <= a.len(),
            i <= b.len(),
            a@.subrange(0, i as int) =~= b@.subrange(0, i as int),
        decreases a.len() - i,
    {
        let x = a[i];
        let y = b[i];
        if x != y {
            proof {
                let p = a@.subrange(0, i as int);
                let ar = a@.subrange(i as int, a@.len() as int);
                let br = b@.subrange(i as int, b@.len() as int);
                assert(a@ =~= p + ar);
                assert(b@ =~= p + br);
                lemma_lex_common_prefix(p, ar, br);
                lemma_lex_common_prefix(p, br, ar);
                assert(ar[0] == a@[i as int] && br[0] == b@[i as int]);
            }
            if x < y {
                return 0;
            } else {
                return 2;
            }
        }
        proof {
            assert(a@.subrange(0, i + 1) =~= b@.subrange(0, i + 1)) by {
                assert forall|j: int| 0 <= j < i + 1 implies #[trigger] a@.subrange(0, i + 1)[j]
                    == b@.subrange(0, i + 1)[j] by {
                    if j < i {
                        assert(a@.subrange(0, i as int)[j] == b@.subrange(0, i as int)[j]);
                    }
                }
            }
        }
        i = i + 1;
    }
    proof {
        let p = a@.subrange(0, i as int);
        let ar = a@.subrange(i as int, a@.len() as int);
        let br = b@.subrange(i as int, b@.len() as int);
        assert(a@ =~= p + ar);
        assert(b@ =~= p + br);
        lemma_lex_common_prefix(p, ar, br);
        lemma_lex_common_prefix(p, br, ar);
    }
    if i == a.len() && i == b.len() {
        proof {
            assert(a@ =~= b@);
        }
        1
    } else if i == a.len() {
        0
    } else {
        2
    }
}

/// Copies a byte vector.
pub fn copy_bytes(v: &Vec<u8>) -> (r: Vec<u8>)
    ensures
        r@ == v@,
{
    let mut r: Vec<u8> = Vec::new();
    let mut i: usize = 0;
    while i < v.len()
        invariant
            0 <= i <= v.len(),
            r@ =~= v@.subrange(0, i as int),
        decreases v.len() - i,
    {
        r.push(v[i]);
        i = i + 1;
    }
    proof {
        assert(r@ =~= v@);
    }
    r
}

/// An in-memory ordered key-value store: the entries, sorted strictly
/// ascending by key.
pub struct KvStore {
    entries: Vec<(Vec<u8>, Vec<u8>)>,
}

/// The listing of a raw entry vector, as mathematical byte sequences.
spec fn views_of(s: Seq<(Vec<u8>, Vec<u8>)>) -> Seq<(Seq<u8>, Seq<u8>)> {
    s.map(|i: int, e: (Vec<u8>, Vec<u8>)| (e.0@, e.1@))
}

/// Replacing the entry at `i` replaces its listing element.
proof fn lemma_views_update(s: Seq<(Vec<u8>, Vec<u8>)>, i: int, p: (Vec<u8>, Vec<u8>))
    requires
        0 <= i < s.len(),
    ensures
        views_of(s.remove(i).insert(i, p)) == views_of(s).update(i, (p.0@, p.1@)),
{
    let a = views_of(s.remove(i).insert(i, p));
    let b = views_of(s).update(i, (p.0@, p.1@));
    assert forall|j: int| 0 <= j < b.len() implies a[j] == b[j] by {
        if j != i {
            if j < i {
                assert(s.remove(i)[j] == s[j]);
            } else {
                assert(s.remove(i)[j - 1] == s[j]);
            }
            assert(s.remove(i).insert(i, p)[j] == s[j]);
            assert(views_of(s)[j] == (s[j].0@, s[j].1@));
        }
    }
    assert(a =~= b);
}

/// Inserting an entry at `i` splices its listing element in at `i`.
proof fn lemma_views_insert(s: Seq<(Vec<u8>, Vec<u8>)>, i: int, p: (Vec<u8>, Vec<u8>))
    requires
        0 <= i <= s.len(),
    ensures
        views_of(s.insert(i, p)) == views_of(s).subrange(0, i) + seq![(p.0@, p.1@)] + views_of(
            s,
        ).subrange(i, s.len() as int),
{
    let a = views_of(s.insert(i, p));
    let b = views_of(s).subrange(0, i) + seq![(p.0@, p.1@)] + views_of(s).subrange(
        i,
        s.len() as int,
    );
    assert forall|j: int| 0 <= j < b.len() implies a[j] == b[j] by {
        if j < i {
            assert(s.insert(i, p)[j] == s[j]);
            assert(b[j] == views_of(s).subrange(0, i)[j]);
            assert(views_of(s)[j] == (s[j].0@, s[j].1@));
        } else if j == i {
            assert(s.insert(i, p)[j] == p);
        } else {
            assert(s.insert(i, p)[j] == s[j - 1]);
            assert(b[j] == views_of(s).subrange(i, s.len() as int)[j - 1 - i]);
            assert(views_of(s)[j - 1] == (s[j - 1].0@, s[j - 1].1@));
        }
    }
    assert(a =~= b);
}

impl KvStore {
    /// The sorted listing this store holds, as mathematical byte sequences.
    pub closed spec fn entry_views(&self) -> Seq<(Seq<u8>, Seq<u8>)> {
        views_of(self.entries@)
    }

    /// Well-formed: the listing is sorted strictly ascending by key.
    pub open spec fn wf(&self) -> bool {
        sorted_entries(self.entry_views())
    }

    /// Creates an empty store.
    pub fn new() -> (s: KvStore)
        ensures
            s.wf(),
            s.entry_views() == Seq::<(Seq<u8>, Seq<u8>)>::empty(),
    {
        let s = KvStore { entries: Vec::new() };
        proof {
            assert(s.entry_views() =~= Seq::<(Seq<u8>, Seq<u8>)>::empty());
        }
        s
    }

    /// Number of entries.
    pub fn len(&self) -> (n: usize)
        ensures
            n == self.entry_views().len(),
    {
        self.entries.len()
    }

    /// First index whose key is at or after `key`.
    pub fn lower_bound(&self, key: &Vec<u8>) -> (i: usize)
        requires
            self.wf(),
        ensures
            i == lb_of(self.entry_views(), key@),
    {
        let ghost es = self.entry_views();
        proof {
            lemma_lb_props(es, key@);
        }
        let n = self.entries.len();
        let mut i: usize = 0;
        while i < n
            invariant
                0 <= i <= n,
                n == es.len(),
                es == self.entry_views(),
                self.wf(),
                forall|j: int| 0 <= j < i ==> lex_less(es[j].0, key@),
            decreases n - i,
        {
            let c = bytes_cmp(&self.entries[i].0, key);
            proof {
                assert(self.entries@[i as int].0@ == es[i as int].0);
            }
            if c != 0 {
                proof {
                    lemma_lex_irrefl(key@);
                    if lex_less(es[i as int].0, key@) && lex_less(key@, es[i as int].0) {
                        lemma_lex_trans(key@, es[i as int].0, key@);
                    }
                    lemma_lb_unique(es, key@, i as int);
                }
                return i;
            }
            i = i + 1;
        }
        proof {
            lemma_lb_unique(es, key@, n as int);
        }
        i
    }

    /// Position just past the entry of `key`, for inclusive reverse
    /// anchors.
    pub fn upper_bound(&self, key: &Vec<u8>) -> (i: usize)
        requires
            self.wf(),
        ensures
            i == ub_of(self.entry_views(), key@),
    {
        let ghost es = self.entry_views();
        let i = self.lower_bound(key);
        proof {
            lemma_lb_props(es, key@);
        }
        if i < self.entries.len() {
            let c = bytes_cmp(&self.entries[i].0, key);
            proof {
                assert(self.entries@[i as int].0@ == es[i as int].0);
            }
            if c == 1 {
                return i + 1;
            }
            proof {
                lemma_lex_irrefl(key@);
            }
            return i;
        }
        i
    }

    /// Reads the value stored under `key`.
    pub fn get(&self, key: &Vec<u8>) -> (r: Option<Vec<u8>>)
        requires
            self.wf(),
        ensures
            match r {
                Some(v) => find_key(self.entry_views(), key@) < self.entry_views().len() && v@
                    == self.entry_views()[find_key(self.entry_views(), key@)].1,
                None => find_key(self.entry_views(), key@) == self.entry_views().len(),
            },
    {
        let ghost es = self.entry_views();
        let i = self.lower_bound(key);
        proof {
            lemma_lb_props(es, key@);
        }
        if i < self.entries.len() {
            let c = bytes_cmp(&self.entries[i].0, key);
            proof {
                assert(self.entries@[i as int].0@ == es[i as int].0);
                assert(self.entries@[i as int].1@ == es[i as int].1);
            }
            if c == 1 {
                return Some(copy_bytes(&self.entries[i].1));
            }
            proof {
                lemma_lex_irrefl(key@);
            }
            return None;
        }
        None
    }

    /// Stores `value` under `key`, overwriting any existing entry of the
    /// same key.
    #[verifier::rlimit(100)]
    pub fn put(&mut self, key: Vec<u8>, value: Vec<u8>)
        requires
            old(self).wf(),
        ensures
            final(self).wf(),
            final(self).entry_views() == spec_put(old(self).entry_views(), key@, value@),
    {
        let ghost es = old(self).entry_views();
        let i = self.lower_bound(&key);
        proof {
            lemma_lb_props(es, key@);
            lemma_put_props(es, key@, value@);
        }
        if i < self.entries.len() {
            let c = bytes_cmp(&self.entries[i].0, &key);
            proof {
                assert(self.entries@[i as int].0@ == es[i as int].0);
            }
            if c == 1 {
                let _ = self.entries.remove(i);
                self.entries.insert(i, (key, value));
                proof {
                    assert(es[i as int].0 == key@);
                    lemma_views_update(old(self).entries@, i as int, (key, value));
                    assert(self.entry_views() == es.update(i as int, (key@, value@)));
                    assert(spec_put(es, key@, value@) == es.update(i as int, (key@, value@)));
                }
                return ;
            }
        }
        proof {
            lemma_lex_irrefl(key@);
        }
        self.entries.insert(i, (key, value));
        proof {
            assert((i as int) < es.len() ==> es[i as int].0 != key@);
            lemma_views_insert(old(self).entries@, i as int, (key, value));
            assert(self.entry_views() == es.subrange(0, i as int) + seq![(key@, value@)]
                + es.subrange(i as int, es.len() as int));
            assert(spec_put(es, key@, value@) == es.subrange(0, i as int) + seq![
                (key@, value@),
            ] + es.subrange(i as int, es.len() as int));
        }
    }

    /// Removes the entry stored under `key`, if any.
    pub fn delete(&mut self, key: &Vec<u8>)
        requires
            old(self).wf(),
        ensures
            final(self).wf(),
            final(self).entry_views() == spec_delete(old(self).entry_views(), key@),
    {
        let ghost es = old(self).entry_views();
        let i = self.lower_bound(key);
        proof {
            lemma_lb_props(es, key@);
            lemma_delete_props(es, key@);
        }
        if i < self.entries.len() {
            let c = bytes_cmp(&self.entries[i].0, key);
            proof {
                assert(self.entries@[i as int].0@ == es[i as int].0);
            }
            if c == 1 {
                let _ = self.entries.remove(i);
                proof {
                    assert(self.entry_views() =~= spec_delete(es, key@));
                }
                return ;
            }
        }
        proof {
            assert(self.entry_views() =~= spec_delete(es, key@));
        }
    }

    /// Borrows the entry at a listing position; cursors step through these.
    pub fn entry_at(&self, i: usize) -> (e: &(Vec<u8>, Vec<u8>))
        requires
            i < self.entry_views().len(),
        ensures
            e.0@ == self.entry_views()[i as int].0,
            e.1@ == self.entry_views()[i as int].1,
    {
        let e = &self.entries[i];
        proof {
            assert(self.entries@[i as int].0@ == self.entry_views()[i as int].0);
        }
        e
    }
}

/// A position satisfying the seek characterization is the seek position.
pub proof fn lemma_lb_unique(es: Seq<(Seq<u8>, Seq<u8>)>, k: Seq<u8>, i: int)
    requires
        sorted_entries(es),
        0 <= i <= es.len(),
        forall|j: int| 0 <= j < i ==> lex_less(es[j].0, k),
        i < es.len() ==> !lex_less(es[i].0, k),
    ensures
        i == lb_of(es, k),
{
    lemma_lb_props(es, k);
    let lb = lb_of(es, k);
    if i < lb {
        assert(lex_less(es[i].0, k));
    } else if lb < i {
        assert(lex_less(es[lb].0, k));
    }
}

/// A position satisfying the inclusive upper characterization is the
/// inclusive upper position.
pub proof fn lemma_ub_unique(es: Seq<(Seq<u8>, Seq<u8>)>, k: Seq<u8>, u: int)
    requires
        sorted_entries(es),
        0 <= u <= es.len(),
        forall|j: int| 0 <= j < u ==> !lex_less(k, es[j].0),
        u < es.len() ==> lex_less(k, es[u].0),
    ensures
        u == ub_of(es, k),
{
    lemma_ub_props(es, k);
    let ub = ub_of(es, k);
    if u < ub {
        assert(!lex_less(k, es[u].0));
    } else if ub < u {
        assert(lex_less(k, es[ub].0));
        assert(!lex_less(k, es[ub].0));
    }
}

} // verus!
