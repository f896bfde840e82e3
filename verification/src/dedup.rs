//! Deduplication of a batch by identity key.
//!
//! A batch is ordered newest-first before it is deduplicated, and
//! [`dedup_batch`] keeps the first occurrence of each key, so the most
//! recently arrived event wins ties for the same key within one batch.

use vstd::prelude::*;

use crate::models::db::HistoryRecord;
use crate::models::nats::MarketOrder;

verus! {

/// An event shape with an identity key; events with equal keys state the same
/// logical fact, and only their value fields differ.
pub trait Keyed: Sized {
    /// The mathematical identity key.
    type Key;

    /// The identity key of this event.
    spec fn key(&self) -> Self::Key;

    /// Do two events carry the same identity key?
    fn key_eq(&self, other: &Self) -> (r: bool)
        ensures
            r == (self.key() == other.key()),
    ;

    /// An exact copy of this event.
    fn duplicate(&self) -> (r: Self)
        ensures
            r == *self,
    ;
}

/// Does some element of `s` carry key `k`?
pub open spec fn has_key<T: Keyed>(s: Seq<T>, k: T::Key) -> bool {
    exists|i: int| 0 <= i < s.len() && s[i].key() == k
}

/// No two elements of `s` share a key.
pub open spec fn unique_keys<T: Keyed>(s: Seq<T>) -> bool {
    forall|i: int, j: int| 0 <= i < j < s.len() ==> s[i].key() != s[j].key()
}

/// The subsequence of `s` keeping, for each key, only its first occurrence.
pub open spec fn dedup_spec<T: Keyed>(s: Seq<T>) -> Seq<T>
    decreases s.len(),
{
    if s.len() == 0 {
        Seq::empty()
    } else {
        let prev = dedup_spec(s.drop_last());
        if has_key(s.drop_last(), s.last().key()) {
            prev
        } else {
            prev.push(s.last())
        }
    }
}

/// Deduplication keeps exactly the keys of its input, and leaves no two
/// elements sharing a key.
pub proof fn lemma_dedup_spec_keys<T: Keyed>(s: Seq<T>)
    ensures
        forall|k: <T as Keyed>::Key| has_key(#[trigger] dedup_spec(s), k) == has_key(s, k),
        unique_keys(dedup_spec(s)),
    decreases s.len(),
{
    if s.len() == 0 {
        assert forall|k: <T as Keyed>::Key| has_key(dedup_spec(s), k) == has_key(s, k) by {
            assert(!has_key(dedup_spec(s), k));
            assert(!has_key(s, k));
        }
    } else {
        let hd = s.drop_last();
        let last = s.last();
        let prev = dedup_spec(hd);
        lemma_dedup_spec_keys(hd);
        assert forall|k: <T as Keyed>::Key| has_key(dedup_spec(s), k) == has_key(s, k) by {
            if has_key(s, k) {
                let i = choose|i: int| 0 <= i < s.len() && s[i].key() == k;
                if i < s.len() - 1 {
                    assert(hd[i].key() == k);
                    assert(has_key(hd, k));
                    let j = choose|j: int| 0 <= j < prev.len() && prev[j].key() == k;
                    assert(dedup_spec(s)[j].key() == k);
                } else {
                    assert(last.key() == k);
                    if has_key(hd, k) {
                        let j = choose|j: int| 0 <= j < prev.len() && prev[j].key() == k;
                        assert(dedup_spec(s)[j].key() == k);
                    } else {
                        assert(dedup_spec(s).last().key() == k);
                    }
                }
                assert(has_key(dedup_spec(s), k));
            }
            if has_key(dedup_spec(s), k) {
                let i = choose|i: int| 0 <= i < dedup_spec(s).len() && dedup_spec(s)[i].key()
                    == k;
                if i < prev.len() {
                    assert(dedup_spec(s)[i] == prev[i]);
                    assert(prev[i].key() == k);
                    assert(has_key(prev, k));
                    assert(has_key(hd, k));
                    let j = choose|j: int| 0 <= j < hd.len() && hd[j].key() == k;
                    assert(0 <= j < hd.len() && hd[j].key() == k);
                    assert(hd[j] == s[j]);
                    assert(s[j].key() == k);
                } else {
                    assert(dedup_spec(s)[i] == last);
                    assert(s[s.len() - 1].key() == k);
                }
                assert(has_key(s, k));
            }
        }
        if !has_key(hd, last.key()) {
            assert forall|i: int, j: int|
                0 <= i < j < dedup_spec(s).len() implies dedup_spec(s)[i].key()
                != dedup_spec(s)[j].key() by {
                if j < prev.len() {
                } else {
                    assert(dedup_spec(s)[j] == last);
                    assert(prev[i].key() == dedup_spec(s)[i].key());
                    if dedup_spec(s)[i].key() == last.key() {
                        assert(has_key(prev, last.key()));
                    }
                }
            }
        }
    }
}

/// Is an element with the key of `x` present in `v`?
fn key_present<T: Keyed>(v: &Vec<T>, x: &T) -> (r: bool)
    ensures
        r == has_key(v@, x.key()),
{
    let mut i: usize = 0;
    while i < v.len()
        invariant
            0 <= i <= v@.len(),
            forall|j: int| 0 <= j < i ==> v@[j].key() != x.key(),
        decreases v@.len() - i,
    {
        if v[i].key_eq(x) {
            return true;
        }
        i += 1;
    }
    false
}

/// Deduplicate a batch by identity key, keeping the first occurrence of each
/// key in batch order.
pub fn dedup_batch<T: Keyed>(v: &Vec<T>) -> (r: Vec<T>)
    ensures
        r@ == dedup_spec(v@),
{
    let mut out: Vec<T> = Vec::new();
    let mut i: usize = 0;
    while i < v.len()
        invariant
            0 <= i <= v@.len(),
            out@ == dedup_spec(v@.take(i as int)),
        decreases v@.len() - i,
    {
        proof {
            let pre = v@.take(i as int);
            let cur = v@.take(i + 1);
            assert(cur.drop_last() =~= pre);
            assert(cur.last() == v@[i as int]);
            lemma_dedup_spec_keys(pre);
        }
        if !key_present(&out, &v[i]) {
            out.push(v[i].duplicate());
        }
        i += 1;
    }
    proof {
        assert(v@.take(v@.len() as int) =~= v@);
    }
    out
}

/// Copy a batch into newest-first order: the append order reversed.
pub fn newest_first<T: Keyed>(v: &Vec<T>) -> (r: Vec<T>)
    ensures
        r@ == v@.reverse(),
{
    let n = v.len();
    let mut out: Vec<T> = Vec::new();
    let mut i: usize = 0;
    while i < n
        invariant
            0 <= i <= n,
            n == v@.len(),
            out@.len() == i,
            forall|j: int| 0 <= j < i ==> out@[j] == v@[n - 1 - j],
        decreases n - i,
    {
        out.push(v[n - 1 - i].duplicate());
        i += 1;
    }
    proof {
        assert(out@ =~= v@.reverse());
    }
    out
}

impl Keyed for MarketOrder {
    type Key = i64;

    open spec fn key(&self) -> i64 {
        self.id
    }

    fn key_eq(&self, other: &Self) -> (r: bool)
        ensures
            r == (self.key() == other.key()),
    {
        self.id == other.id
    }

    fn duplicate(&self) -> (r: Self)
        ensures
            r == *self,
    {
        self.clone()
    }
}

impl Keyed for HistoryRecord {
    type Key = (Seq<char>, i16, i16, i16, i64);

    open spec fn key(&self) -> (Seq<char>, i16, i16, i16, i64) {
        (self.item_unique_name@, self.location_id, self.quality_level, self.timescale,
        self.timestamp)
    }

    fn key_eq(&self, other: &Self) -> (r: bool)
        ensures
            r == (self.key() == other.key()),
    {
        self.item_unique_name == other.item_unique_name && self.location_id == other.location_id
            && self.quality_level == other.quality_level && self.timescale == other.timescale
            && self.timestamp == other.timestamp
    }

    fn duplicate(&self) -> (r: Self)
        ensures
            r == *self,
    {
        self.clone()
    }
}

} // verus!
