//! A map kept as a vector of entries in strictly increasing key order, so that
//! a scan always meets the entries in the same order, whatever the order in
//! which they were inserted.

use vstd::prelude::*;
use crate::bytes::{compare_bytes, lemma_lex_lt_transitive, lex_lt, KeyOrder};
use crate::duplicate::Duplicate;

verus! {

/// A key of an [`OrderedMap`]: a value with a mathematical view and a strict
/// order on that view in which any two keys can be compared.
pub trait Key: Duplicate {
    /// The strict order that the map keeps its keys in.
    spec fn lt(a: Self::V, b: Self::V) -> bool;

    /// No key comes before itself.
    proof fn lemma_irreflexive(a: Self::V)
        ensures
            !Self::lt(a, a),
    ;

    /// A key comes before whatever a later key comes before.
    proof fn lemma_transitive(a: Self::V, b: Self::V, c: Self::V)
        requires
            Self::lt(a, b),
            Self::lt(b, c),
        ensures
            Self::lt(a, c),
    ;

    /// Where `self` stands to `other` in the order.
    fn compare(&self, other: &Self) -> (c: KeyOrder)
        ensures
            match c {
                KeyOrder::Before => Self::lt(self@, other@),
                KeyOrder::Same => self@ == other@,
                KeyOrder::After => Self::lt(other@, self@),
            },
    ;
}

impl Key for u64 {
    open spec fn lt(a: u64, b: u64) -> bool {
        a < b
    }

    proof fn lemma_irreflexive(a: u64) {
    }

    proof fn lemma_transitive(a: u64, b: u64, c: u64) {
    }

    fn compare(&self, other: &Self) -> (c: KeyOrder) {
        if *self < *other {
            KeyOrder::Before
        } else if *self == *other {
            KeyOrder::Same
        } else {
            KeyOrder::After
        }
    }
}

impl Key for Vec<u8> {
    open spec fn lt(a: Seq<u8>, b: Seq<u8>) -> bool {
        lex_lt(a, b)
    }

    proof fn lemma_irreflexive(a: Seq<u8>) {
    }

    proof fn lemma_transitive(a: Seq<u8>, b: Seq<u8>, c: Seq<u8>) {
        lemma_lex_lt_transitive(a, b, c);
    }

    fn compare(&self, other: &Self) -> (c: KeyOrder) {
        compare_bytes(self, other)
    }
}

/// The keys of `s` increase strictly from entry to entry.
pub open spec fn sorted<K: Key, W>(s: Seq<(K::V, W)>) -> bool {
    forall|i: int, j: int| 0 <= i < j < s.len() ==> K::lt(#[trigger] s[i].0, #[trigger] s[j].0)
}

/// Some entry of `s` has the key `k`.
pub open spec fn has_key<A, W>(s: Seq<(A, W)>, k: A) -> bool {
    exists|i: int| 0 <= i < s.len() && #[trigger] s[i].0 == k
}

/// The place of an entry with the key `k` in `s`, where there is one.
pub open spec fn index_of<A, W>(s: Seq<(A, W)>, k: A) -> int {
    choose|i: int| 0 <= i < s.len() && #[trigger] s[i].0 == k
}

/// The entries of `s` as a map from key to value.
pub open spec fn to_map<A, W>(s: Seq<(A, W)>) -> Map<A, W> {
    Map::new(|k: A| has_key(s, k), |k: A| s[index_of(s, k)].1)
}

/// In a sorted sequence different places hold different keys.
pub proof fn lemma_sorted_distinct<K: Key, W>(s: Seq<(K::V, W)>, i: int, j: int)
    requires
        sorted::<K, W>(s),
        0 <= i < s.len(),
        0 <= j < s.len(),
        s[i].0 == s[j].0,
    ensures
        i == j,
{
    if i < j {
        K::lemma_irreflexive(s[i].0);
    } else if j < i {
        K::lemma_irreflexive(s[j].0);
    }
}

/// The map of a sorted sequence holds each entry under its key.
pub proof fn lemma_to_map_at<K: Key, W>(s: Seq<(K::V, W)>, i: int)
    requires
        sorted::<K, W>(s),
        0 <= i < s.len(),
    ensures
        to_map(s).contains_key(s[i].0),
        to_map(s)[s[i].0] == s[i].1,
        index_of(s, s[i].0) == i,
{
    lemma_sorted_distinct::<K, W>(s, i, index_of(s, s[i].0));
}

/// Inserting an entry at its place in the order keeps the sequence sorted and
/// adds the entry to the map.
pub proof fn lemma_insert_new<K: Key, W>(s: Seq<(K::V, W)>, p: int, k: K::V, w: W)
    requires
        sorted::<K, W>(s),
        0 <= p <= s.len(),
        forall|j: int| 0 <= j < p ==> K::lt(#[trigger] s[j].0, k),
        forall|j: int| p <= j < s.len() ==> K::lt(k, #[trigger] s[j].0),
    ensures
        !has_key(s, k),
        sorted::<K, W>(s.insert(p, (k, w))),
        to_map(s.insert(p, (k, w))) == to_map(s).insert(k, w),
{
    let t = s.insert(p, (k, w));
    K::lemma_irreflexive(k);
    assert forall|a: K::V| has_key(t, a) <==> (a == k || has_key(s, a)) by {
        if a == k {
            assert(t[p].0 == k);
        }
        if has_key(s, a) {
            let i = index_of(s, a);
            if i < p {
                assert(t[i] == s[i]);
            } else {
                assert(t[i + 1] == s[i]);
            }
        }
    }
    assert forall|a: K::V| has_key(t, a) implies to_map(t)[a] == to_map(s).insert(k, w)[a] by {
        let i = index_of(t, a);
        if i < p {
            lemma_to_map_at::<K, W>(s, i);
        } else if i > p {
            lemma_to_map_at::<K, W>(s, i - 1);
        }
    }
}

/// Replacing the value of an entry keeps the sequence sorted and updates the map.
pub proof fn lemma_update_at<K: Key, W>(s: Seq<(K::V, W)>, i: int, w: W)
    requires
        sorted::<K, W>(s),
        0 <= i < s.len(),
    ensures
        sorted::<K, W>(s.update(i, (s[i].0, w))),
        to_map(s.update(i, (s[i].0, w))) == to_map(s).insert(s[i].0, w),
{
    let k = s[i].0;
    let t = s.update(i, (k, w));
    assert forall|a: K::V| has_key(t, a) <==> (a == k || has_key(s, a)) by {
        if has_key(s, a) {
            let j = index_of(s, a);
            assert(t[j].0 == s[j].0);
        }
    }
    assert forall|a: K::V| has_key(t, a) implies to_map(t)[a] == to_map(s).insert(k, w)[a] by {
        let j = index_of(t, a);
        if j != i {
            lemma_to_map_at::<K, W>(s, j);
            if a == k {
                lemma_sorted_distinct::<K, W>(s, i, j);
            }
        }
    }
}

/// Taking an entry out keeps the sequence sorted and removes its key from the map.
pub proof fn lemma_remove_at<K: Key, W>(s: Seq<(K::V, W)>, i: int)
    requires
        sorted::<K, W>(s),
        0 <= i < s.len(),
    ensures
        sorted::<K, W>(s.remove(i)),
        to_map(s.remove(i)) == to_map(s).remove(s[i].0),
{
    let k = s[i].0;
    let t = s.remove(i);
    assert forall|a: K::V| has_key(t, a) <==> (a != k && has_key(s, a)) by {
        if has_key(t, a) {
            let j = index_of(t, a);
            let j0 = if j < i { j } else { j + 1 };
            if a == k {
                lemma_sorted_distinct::<K, W>(s, i, j0);
            }
        }
        if a != k && has_key(s, a) {
            let j = index_of(s, a);
            if j < i {
                assert(t[j] == s[j]);
            } else {
                assert(t[j - 1] == s[j]);
            }
        }
    }
    assert forall|a: K::V| has_key(t, a) implies to_map(t)[a] == to_map(s).remove(k)[a] by {
        let j = index_of(t, a);
        let j0 = if j < i { j } else { j + 1 };
        lemma_to_map_at::<K, W>(s, j0);
    }
}

/// Two sequences in key order that hold the same entries are the same: the
/// order of a scan depends on what a map holds and on nothing else.
pub proof fn lemma_sorted_unique<K: Key, W>(s: Seq<(K::V, W)>, t: Seq<(K::V, W)>)
    requires
        sorted::<K, W>(s),
        sorted::<K, W>(t),
        to_map(s) == to_map(t),
    ensures
        s == t,
    decreases s.len(),
{
    if s.len() == 0 {
        if t.len() > 0 {
            lemma_to_map_at::<K, W>(t, 0);
        }
    } else {
        let n = s.len() - 1;
        lemma_to_map_at::<K, W>(s, n);
        let j = index_of(t, s[n].0);
        let m = t.len() - 1;
        if j < m {
            lemma_to_map_at::<K, W>(t, m);
            let i = index_of(s, t[m].0);
            if i < n {
                K::lemma_transitive(s[n].0, s[i].0, s[n].0);
            }
            K::lemma_irreflexive(s[n].0);
        }
        lemma_remove_at::<K, W>(s, n);
        lemma_remove_at::<K, W>(t, m);
        lemma_sorted_unique::<K, W>(s.drop_last(), t.drop_last());
        assert(s =~= s.drop_last().push(s[n]));
    }
}

/// A map from keys to values that holds its entries in increasing key order.
#[derive(Debug, PartialEq, Eq)]
pub struct OrderedMap<K, V> {
    entries: Vec<(K, V)>,
}

impl<K: Key, V: View> View for OrderedMap<K, V> {
    type V = Seq<(K::V, V::V)>;

    /// The entries in the order of a scan, each key and value by its view.
    closed spec fn view(&self) -> Seq<(K::V, V::V)> {
        Seq::new(self.entries@.len(), |i: int| (self.entries@[i].0@, self.entries@[i].1@))
    }
}

impl<K: Key, V: View> OrderedMap<K, V> {
    /// The entries are in strictly increasing key order, so no key occurs twice.
    pub open spec fn wf(&self) -> bool {
        sorted::<K, V::V>(self@)
    }

    /// The entries as a map from key to value.
    pub open spec fn map(&self) -> Map<K::V, V::V> {
        to_map(self@)
    }

    /// An empty map.
    pub fn new() -> (m: Self)
        ensures
            m@ == Seq::<(K::V, V::V)>::empty(),
            m.wf(),
    {
        let m = OrderedMap { entries: Vec::new() };
        m
    }

    /// The number of entries.
    pub fn len(&self) -> (n: usize)
        ensures
            n == self@.len(),
    {
        self.entries.len()
    }

    /// The key of the `i`-th entry in key order.
    pub fn key_at(&self, i: usize) -> (k: &K)
        requires
            i < self@.len(),
        ensures
            k@ == self@[i as int].0,
    {
        &self.entries[i].0
    }

    /// The value of the `i`-th entry in key order.
    pub fn value_at(&self, i: usize) -> (v: &V)
        requires
            i < self@.len(),
        ensures
            v@ == self@[i as int].1,
    {
        &self.entries[i].1
    }

    /// Where `key` is, or where it would be inserted: `Ok` with the place of the
    /// entry that holds it, `Err` with the place that keeps the order.
    pub fn find(&self, key: &K) -> (r: Result<usize, usize>)
        requires
            self.wf(),
        ensures
            match r {
                Ok(i) => i < self@.len() && self@[i as int].0 == key@ && has_key(self@, key@),
                Err(p) => {
                    &&& p <= self@.len()
                    &&& !has_key(self@, key@)
                    &&& forall|j: int| 0 <= j < p ==> K::lt(#[trigger] self@[j].0, key@)
                    &&& forall|j: int| p <= j < self@.len() ==> K::lt(key@, #[trigger] self@[j].0)
                },
            },
    {
        let mut lo: usize = 0;
        let mut hi: usize = self.entries.len();
        while lo < hi
            invariant
                self.wf(),
                lo <= hi <= self@.len(),
                self@.len() == self.entries@.len(),
                forall|j: int| 0 <= j < lo ==> K::lt(#[trigger] self@[j].0, key@),
                forall|j: int| hi <= j < self@.len() ==> K::lt(key@, #[trigger] self@[j].0),
            decreases hi - lo,
        {
            let mid = lo + (hi - lo) / 2;
            match self.entries[mid].0.compare(key) {
                KeyOrder::Before => {
                    proof {
                        assert forall|j: int| 0 <= j < mid + 1 implies K::lt(
                            #[trigger] self@[j].0,
                            key@,
                        ) by {
                            if j < mid {
                                K::lemma_transitive(self@[j].0, self@[mid as int].0, key@);
                            }
                        }
                    }
                    lo = mid + 1;
                },
                KeyOrder::Same => {
                    return Ok(mid);
                },
                KeyOrder::After => {
                    proof {
                        assert forall|j: int| mid <= j < self@.len() implies K::lt(
                            key@,
                            #[trigger] self@[j].0,
                        ) by {
                            if j > mid {
                                K::lemma_transitive(key@, self@[mid as int].0, self@[j].0);
                            }
                        }
                    }
                    hi = mid;
                },
            }
        }
        proof {
            Self::lemma_absent(self@, lo as int, key@);
        }
        Err(lo)
    }

    proof fn lemma_absent(s: Seq<(K::V, V::V)>, p: int, k: K::V)
        requires
            0 <= p <= s.len(),
            forall|j: int| 0 <= j < p ==> K::lt(#[trigger] s[j].0, k),
            forall|j: int| p <= j < s.len() ==> K::lt(k, #[trigger] s[j].0),
        ensures
            !has_key(s, k),
    {
        K::lemma_irreflexive(k);
    }

    /// Whether the map holds `key`.
    pub fn contains_key(&self, key: &K) -> (found: bool)
        requires
            self.wf(),
        ensures
            found == self.map().contains_key(key@),
    {
        self.find(key).is_ok()
    }

    /// The value under `key`, if the map holds it.
    pub fn get(&self, key: &K) -> (r: Option<&V>)
        requires
            self.wf(),
        ensures
            match r {
                Some(v) => self.map().contains_key(key@) && v@ == self.map()[key@],
                None => !self.map().contains_key(key@),
            },
    {
        match self.find(key) {
            Ok(i) => {
                proof {
                    lemma_to_map_at::<K, V::V>(self@, i as int);
                }
                Some(&self.entries[i].1)
            },
            Err(_) => None,
        }
    }

    /// Puts `value` under `key`, in place of the value that was there, if any.
    pub fn insert(&mut self, key: K, value: V)
        requires
            old(self).wf(),
        ensures
            final(self).wf(),
            final(self).map() == old(self).map().insert(key@, value@),
            final(self)@.len() == old(self)@.len() + (if old(self).map().contains_key(key@) {
                0int
            } else {
                1int
            }),
            forall|i: int|
                0 <= i < final(self)@.len() ==> (#[trigger] final(self)@[i]) == (key@, value@)
                    || old(self)@.contains(final(self)@[i]),
    {
        let ghost before = self@;
        match self.find(&key) {
            Ok(i) => {
                self.entries.remove(i);
                self.entries.insert(i, (key, value));
                proof {
                    assert(self@ =~= before.update(i as int, (before[i as int].0, value@)));
                    lemma_update_at::<K, V::V>(before, i as int, value@);
                }
            },
            Err(p) => {
                self.entries.insert(p, (key, value));
                proof {
                    assert(self@ =~= before.insert(p as int, (key@, value@)));
                    lemma_insert_new::<K, V::V>(before, p as int, key@, value@);
                }
            },
        }
    }

    /// Takes the `i`-th entry in key order out of the map.
    pub fn remove_at(&mut self, i: usize) -> (entry: (K, V))
        requires
            old(self).wf(),
            i < old(self)@.len(),
        ensures
            final(self).wf(),
            final(self)@ == old(self)@.remove(i as int),
            final(self).map() == old(self).map().remove(old(self)@[i as int].0),
            entry.0@ == old(self)@[i as int].0,
            entry.1@ == old(self)@[i as int].1,
    {
        let ghost before = self@;
        let entry = self.entries.remove(i);
        proof {
            assert(self@ =~= before.remove(i as int));
            lemma_remove_at::<K, V::V>(before, i as int);
        }
        entry
    }

    /// Takes the entry under `key` out of the map and returns its value.
    pub fn remove(&mut self, key: &K) -> (r: Option<V>)
        requires
            old(self).wf(),
        ensures
            final(self).wf(),
            final(self).map() == old(self).map().remove(key@),
            match r {
                Some(v) => old(self).map().contains_key(key@) && v@ == old(self).map()[key@]
                    && final(self)@.len() + 1 == old(self)@.len(),
                None => !old(self).map().contains_key(key@) && final(self)@ == old(self)@,
            },
            forall|i: int|
                0 <= i < final(self)@.len() ==> old(self)@.contains(#[trigger] final(self)@[i]),
    {
        let ghost before = self@;
        match self.find(key) {
            Ok(i) => {
                let entry = self.entries.remove(i);
                proof {
                    assert(self@ =~= before.remove(i as int));
                    lemma_remove_at::<K, V::V>(before, i as int);
                    lemma_to_map_at::<K, V::V>(before, i as int);
                }
                Some(entry.1)
            },
            Err(_) => {
                None
            },
        }
    }
}

impl<K: Key, V: Duplicate> Duplicate for OrderedMap<K, V> {
    fn duplicate(&self) -> (copy: Self) {
        let mut entries: Vec<(K, V)> = Vec::with_capacity(self.entries.len());
        let mut i: usize = 0;
        while i < self.entries.len()
            invariant
                i <= self.entries@.len(),
                entries@.len() == i,
                forall|j: int|
                    0 <= j < i ==> (#[trigger] entries@[j]).0@ == self.entries@[j].0@
                        && entries@[j].1@ == self.entries@[j].1@,
            decreases self.entries.len() - i,
        {
            let k = self.entries[i].0.duplicate();
            let v = self.entries[i].1.duplicate();
            entries.push((k, v));
            i = i + 1;
        }
        let copy = OrderedMap { entries };
        assert(copy@ =~= self@);
        copy
    }
}

} // verus!
