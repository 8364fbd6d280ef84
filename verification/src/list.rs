//! A list whose view goes through the views of its items.

use vstd::prelude::*;
use crate::bytes::KeyOrder;
use crate::duplicate::Duplicate;
use crate::ordered_map::Key;

verus! {

/// `s` without the items equal to `x`, the others in their order.
pub open spec fn without<A>(s: Seq<A>, x: A) -> Seq<A> {
    s.filter(|y: A| y != x)
}

/// Filtering the first `i + 1` items by any test is filtering the first `i`
/// and then looking at the next one.
pub proof fn lemma_filter_step<A>(s: Seq<A>, keep: spec_fn(A) -> bool, i: int)
    requires
        0 <= i < s.len(),
    ensures
        s.take(i + 1).filter(keep) == if keep(s[i]) {
            s.take(i).filter(keep).push(s[i])
        } else {
            s.take(i).filter(keep)
        },
{
    reveal(Seq::filter);
    assert(s.take(i + 1).drop_last() =~= s.take(i));
}

/// What is left after the filter holds no `x`, and every other item of `s`.
pub proof fn lemma_without_contains<A>(s: Seq<A>, x: A)
    ensures
        !without(s, x).contains(x),
        forall|y: A| y != x ==> (#[trigger] without(s, x).contains(y) <==> s.contains(y)),
        without(s, x).len() <= s.len(),
        !s.contains(x) ==> without(s, x) == s,
    decreases s.len(),
{
    reveal(Seq::filter);
    if s.len() > 0 {
        let t = s.drop_last();
        lemma_without_contains(t, x);
        let f = without(t, x);
        assert forall|y: A| y != x implies (#[trigger] without(s, x).contains(y) <==> s.contains(
            y,
        )) by {
            if without(s, x).contains(y) {
                let j = choose|j: int| 0 <= j < without(s, x).len() && without(s, x)[j] == y;
                if j < f.len() {
                    assert(f.contains(y));
                }
            }
        }
    }
}

/// An ordered list of items.
#[derive(Debug, PartialEq, Eq)]
pub struct List<T> {
    items: Vec<T>,
}

impl<T: View> View for List<T> {
    type V = Seq<T::V>;

    /// The views of the items, in their order.
    closed spec fn view(&self) -> Seq<T::V> {
        Seq::new(self.items@.len(), |i: int| self.items@[i]@)
    }
}

impl<T: View> List<T> {
    /// An empty list.
    pub fn new() -> (l: Self)
        ensures
            l@ == Seq::<T::V>::empty(),
    {
        let l = List { items: Vec::new() };
        l
    }

    /// The number of items.
    pub fn len(&self) -> (n: usize)
        ensures
            n == self@.len(),
    {
        self.items.len()
    }

    /// The `i`-th item.
    pub fn get(&self, i: usize) -> (x: &T)
        requires
            i < self@.len(),
        ensures
            x@ == self@[i as int],
    {
        &self.items[i]
    }

    /// Appends `x`.
    pub fn push(&mut self, x: T)
        ensures
            final(self)@ == old(self)@.push(x@),
    {
        self.items.push(x);
    }

    /// Takes the `i`-th item out; the items behind it move up.
    pub fn remove(&mut self, i: usize) -> (x: T)
        requires
            i < old(self)@.len(),
        ensures
            x@ == old(self)@[i as int],
            final(self)@ == old(self)@.remove(i as int),
    {
        let x = self.items.remove(i);
        x
    }
}

impl<T: Key> List<T> {
    /// The place of the first item equal to `x`, if there is one.
    pub fn position(&self, x: &T) -> (r: Option<usize>)
        ensures
            match r {
                Some(i) => {
                    &&& i < self@.len()
                    &&& self@[i as int] == x@
                    &&& !self@.take(i as int).contains(x@)
                },
                None => !self@.contains(x@),
            },
    {
        let mut i: usize = 0;
        while i < self.items.len()
            invariant
                i <= self@.len(),
                self@.len() == self.items@.len(),
                forall|j: int| 0 <= j < i ==> self@[j] != x@,
            decreases self.items.len() - i,
        {
            match self.items[i].compare(x) {
                KeyOrder::Same => {
                    return Some(i);
                },
                KeyOrder::Before => {
                    proof {
                        T::lemma_irreflexive(x@);
                    }
                },
                KeyOrder::After => {
                    proof {
                        T::lemma_irreflexive(x@);
                    }
                },
            }
            i = i + 1;
        }
        None
    }

    /// Whether some item equals `x`.
    pub fn contains(&self, x: &T) -> (found: bool)
        ensures
            found == self@.contains(x@),
    {
        self.position(x).is_some()
    }

    /// Drops every item equal to `x` and keeps the others in their order.
    pub fn retain_ne(&mut self, x: &T)
        ensures
            final(self)@ == without(old(self)@, x@),
    {
        let ghost before = self@;
        let ghost mut k: int = 0;
        let mut i: usize = 0;
        while i < self.items.len()
            invariant
                0 <= i <= k <= before.len(),
                i <= self@.len(),
                self@.len() == self.items@.len(),
                self@.len() - i == before.len() - k,
                self@.take(i as int) == without(before.take(k), x@),
                self@.skip(i as int) == before.skip(k),
            decreases self.items.len() - i,
        {
            let ghost current = self@;
            proof {
                lemma_filter_step(before, |y: T::V| y != x@, k);
                T::lemma_irreflexive(x@);
                assert(current[i as int] == current.skip(i as int)[0]);
            }
            let same = match self.items[i].compare(x) {
                KeyOrder::Same => true,
                KeyOrder::Before => false,
                KeyOrder::After => false,
            };
            if same {
                self.items.remove(i);
                proof {
                    assert(self@.skip(i as int) =~= current.skip(i as int).skip(1));
                    k = k + 1;
                }
            } else {
                proof {
                    assert(current.skip(i + 1) =~= current.skip(i as int).skip(1));
                    k = k + 1;
                }
                i = i + 1;
            }
        }
        proof {
            assert(before.take(k) =~= before);
        }
    }
}

impl<T: Duplicate> List<T> {
    /// Copies of the items as a vector, in their order.
    pub fn to_vec(&self) -> (items: Vec<T>)
        ensures
            items@.len() == self@.len(),
            forall|i: int| 0 <= i < items@.len() ==> (#[trigger] items@[i])@ == self@[i],
    {
        let mut items: Vec<T> = Vec::with_capacity(self.items.len());
        let mut i: usize = 0;
        while i < self.items.len()
            invariant
                i <= self.items@.len(),
                self@.len() == self.items@.len(),
                items@.len() == i,
                forall|j: int| 0 <= j < i ==> (#[trigger] items@[j])@ == self@[j],
            decreases self.items@.len() - i,
        {
            items.push(self.items[i].duplicate());
            i = i + 1;
        }
        items
    }
}

impl<T: Duplicate> Duplicate for List<T> {
    fn duplicate(&self) -> (copy: Self) {
        let mut items: Vec<T> = Vec::with_capacity(self.items.len());
        let mut i: usize = 0;
        while i < self.items.len()
            invariant
                i <= self.items@.len(),
                items@.len() == i,
                forall|j: int| 0 <= j < i ==> (#[trigger] items@[j])@ == self.items@[j]@,
            decreases self.items.len() - i,
        {
            items.push(self.items[i].duplicate());
            i = i + 1;
        }
        let copy = List { items };
        assert(copy@ =~= self@);
        copy
    }
}

} // verus!
