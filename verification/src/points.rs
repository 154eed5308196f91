//! A set of points that remembers the order in which they were added.

use crate::board::Point;
use vstd::prelude::*;

verus! {

/// A finite set of points. Its view is the set; `elements` is the same
/// points in the order of insertion, each once.
#[derive(Debug)]
pub struct PointSet {
    items: Vec<Point>,
}

impl View for PointSet {
    type V = Set<Point>;

    open spec fn view(&self) -> Set<Point> {
        self.elements().to_set()
    }
}

impl PointSet {
    /// The points in the order in which they were inserted.
    pub closed spec fn elements(&self) -> Seq<Point> {
        self.items@
    }

    /// No point is held twice.
    pub open spec fn wf(&self) -> bool {
        self.elements().no_duplicates()
    }

    /// In a well-formed set there are as many elements as points.
    pub proof fn lemma_len(&self)
        requires
            self.wf(),
        ensures
            self@.finite(),
            self@.len() == self.elements().len(),
    {
        self.elements().unique_seq_to_set();
    }

    pub fn new() -> (s: PointSet)
        ensures
            s.wf(),
            s.elements() == Seq::<Point>::empty(),
            s@ == Set::<Point>::empty(),
    {
        let s = PointSet { items: Vec::new() };
        s
    }

    pub fn len(&self) -> (n: usize)
        ensures
            n == self.elements().len(),
            self.wf() ==> n == self@.len(),
    {
        proof {
            if self.wf() {
                self.lemma_len();
            }
        }
        self.items.len()
    }

    pub fn is_empty(&self) -> (b: bool)
        ensures
            b == (self.elements().len() == 0),
            b == (self@ == Set::<Point>::empty()),
    {
        let b = self.items.len() == 0;
        proof {
            if b {
                assert(self@ =~= Set::<Point>::empty());
            } else {
                assert(self@.contains(self.elements()[0]));
            }
        }
        b
    }

    pub fn contains(&self, p: &Point) -> (b: bool)
        ensures
            b == self@.contains(*p),
    {
        let mut i: usize = 0;
        while i < self.items.len()
            invariant
                i <= self.items@.len(),
                forall|j: int| 0 <= j < i ==> self.items@[j] != *p,
            decreases self.items@.len() - i,
        {
            if self.items[i] == *p {
                return true;
            }
            i += 1;
        }
        false
    }

    /// The `i`-th point in the order of insertion.
    pub fn get(&self, i: usize) -> (p: Point)
        requires
            i < self.elements().len(),
        ensures
            p == self.elements()[i as int],
    {
        self.items[i]
    }

    /// Adds `p`; tells whether it was new. A new point goes to the end.
    pub fn insert(&mut self, p: Point) -> (added: bool)
        requires
            old(self).wf(),
        ensures
            final(self).wf(),
            added == !old(self)@.contains(p),
            final(self)@ == old(self)@.insert(p),
            final(self).elements() == if added {
                old(self).elements().push(p)
            } else {
                old(self).elements()
            },
    {
        if self.contains(&p) {
            false
        } else {
            self.items.push(p);
            assert(self.elements().to_set() =~= old(self).elements().to_set().insert(p)) by {
                let before = old(self).elements();
                let after = self.elements();
                assert forall|q: Point| before.contains(q) || q == p implies after.contains(q) by {
                    if q == p {
                        assert(after[before.len() as int] == p);
                    } else {
                        let i = choose|i: int| 0 <= i < before.len() && before[i] == q;
                        assert(after[i] == q);
                    }
                }
            }
            true
        }
    }

    /// Takes `p` out; tells whether it was there. The other points keep
    /// their order.
    pub fn remove(&mut self, p: &Point) -> (removed: bool)
        requires
            old(self).wf(),
        ensures
            final(self).wf(),
            removed == old(self)@.contains(*p),
            final(self)@ == old(self)@.remove(*p),
            !removed ==> final(self).elements() == old(self).elements(),
            removed ==> exists|i: int|
                0 <= i < old(self).elements().len() && old(self).elements()[i] == *p
                    && final(self).elements() == old(self).elements().remove(i),
    {
        let mut i: usize = 0;
        while i < self.items.len()
            invariant
                i <= self.items@.len(),
                self.items@ == old(self).items@,
                old(self).wf(),
                forall|j: int| 0 <= j < i ==> self.items@[j] != *p,
            decreases self.items@.len() - i,
        {
            if self.items[i] == *p {
                self.items.remove(i);
                proof {
                    let before = old(self).elements();
                    let after = self.elements();
                    assert forall|q: Point| before.contains(q) && q != *p implies after.contains(
                        q,
                    ) by {
                        let a0 = choose|a0: int| 0 <= a0 < before.len() && before[a0] == q;
                        let a = if a0 < i { a0 } else { a0 - 1 };
                        assert(after[a] == q);
                    }
                }
                return true;
            }
            i += 1;
        }
        false
    }

    /// The points as a vector, in the order of insertion.
    pub fn to_vec(&self) -> (v: Vec<Point>)
        ensures
            v@ == self.elements(),
    {
        let mut v: Vec<Point> = Vec::new();
        let mut i: usize = 0;
        while i < self.items.len()
            invariant
                i <= self.items@.len(),
                v@ == self.items@.subrange(0, i as int),
            decreases self.items@.len() - i,
        {
            v.push(self.items[i]);
            i += 1;
        }
        v
    }
}

impl Clone for PointSet {
    fn clone(&self) -> (s: PointSet)
        ensures
            s.elements() == self.elements(),
            s@ == self@,
            s.wf() == self.wf(),
    {
        PointSet { items: self.to_vec() }
    }
}

} // verus!
