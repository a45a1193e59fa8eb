//! A bounded queue that hands out higher priorities first, and items of
//! equal priority in the order they came.

use vstd::prelude::*;

verus! {

/// Whether priorities never increase along the sequence.
pub open spec fn by_priority<T>(s: Seq<(u8, T)>) -> bool {
    forall|i: int, j: int| 0 <= i < j < s.len() ==> #[trigger] s[i].0 >= #[trigger] s[j].0
}

/// Where an item of priority `p` goes: after every item of priority `p` or
/// higher, before every lower one.
pub open spec fn slot_for<T>(s: Seq<(u8, T)>, k: int, p: u8) -> bool {
    &&& 0 <= k <= s.len()
    &&& forall|i: int| 0 <= i < k ==> #[trigger] s[i].0 >= p
    &&& forall|i: int| k <= i < s.len() ==> #[trigger] s[i].0 < p
}

/// A bounded priority queue.
pub struct PriorityQueue<T> {
    items: Vec<(u8, T)>,
    capacity: usize,
}

impl<T> View for PriorityQueue<T> {
    type V = Seq<(u8, T)>;

    closed spec fn view(&self) -> Seq<(u8, T)> {
        self.items@
    }
}

impl<T> PriorityQueue<T> {
    /// The number of items the queue holds at most.
    pub closed spec fn spec_capacity(&self) -> nat {
        self.capacity as nat
    }

    /// Whether the items are kept in the order they leave.
    pub closed spec fn wf(&self) -> bool {
        by_priority(self.items@)
    }

    /// An empty queue for at most `capacity` items.
    pub fn new(capacity: usize) -> (r: Self)
        ensures
            r.wf(),
            r@ == Seq::<(u8, T)>::empty(),
            r.spec_capacity() == capacity,
    {
        PriorityQueue { items: Vec::new(), capacity }
    }

    pub fn len(&self) -> (r: usize)
        ensures
            r == self@.len(),
    {
        self.items.len()
    }

    pub fn is_empty(&self) -> (r: bool)
        ensures
            r == (self@.len() == 0),
    {
        self.items.len() == 0
    }

    /// The item at place `i` in the order the items leave.
    pub fn get(&self, i: usize) -> (r: &(u8, T))
        requires
            i < self@.len(),
        ensures
            *r == self@[i as int],
    {
        &self.items[i]
    }

    /// Adds an item, unless the queue is full; says whether it was added.
    pub fn enqueue(&mut self, priority: u8, item: T) -> (added: bool)
        requires
            old(self).wf(),
        ensures
            final(self).wf(),
            final(self).spec_capacity() == old(self).spec_capacity(),
            added == (old(self)@.len() < old(self).spec_capacity()),
            added ==> exists|k: int| slot_for(old(self)@, k, priority) && final(self)@ == old(self)@.insert(
                k,
                (priority, item),
            ),
            !added ==> final(self)@ == old(self)@,
    {
        if self.items.len() >= self.capacity {
            return false;
        }
        let mut k: usize = 0;
        while k < self.items.len() && self.items[k].0 >= priority
            invariant
                k <= self.items@.len(),
                forall|i: int| 0 <= i < k ==> #[trigger] self.items@[i].0 >= priority,
            decreases self.items@.len() - k,
        {
            k += 1;
        }
        proof {
            assert forall|i: int| k <= i < self.items@.len() implies #[trigger] self.items@[i].0 < priority by {
                assert(self.items@[k as int].0 < priority);
                if i > k {
                    assert(self.items@[k as int].0 >= self.items@[i].0);
                }
            }
        }
        let ghost before = self.items@;
        let ghost it = item;
        self.items.insert(k, (priority, item));
        proof {
            assert(slot_for(before, k as int, priority));
            assert(self.items@ == before.insert(k as int, (priority, it)));
            assert(before == old(self)@);
            assert(slot_for(old(self)@, k as int, priority));
            assert(self@ == old(self)@.insert(k as int, (priority, it)));
            let s = self.items@;
            assert forall|i: int, j: int| 0 <= i < j < s.len() implies #[trigger] s[i].0 >= #[trigger] s[j].0 by {
                if i < k && j < k {
                } else if i < k && j == k {
                } else if i < k {
                    assert(s[j] == before[j - 1]);
                } else if i == k {
                    assert(s[j] == before[j - 1]);
                } else {
                    assert(s[i] == before[i - 1]);
                    assert(s[j] == before[j - 1]);
                }
            }
        }
        true
    }

    /// Takes the item that leaves first: the earliest of the highest priority.
    pub fn dequeue(&mut self) -> (r: Option<(u8, T)>)
        requires
            old(self).wf(),
        ensures
            final(self).wf(),
            final(self).spec_capacity() == old(self).spec_capacity(),
            old(self)@.len() == 0 ==> r is None && final(self)@ == old(self)@,
            old(self)@.len() > 0 ==> r == Some(old(self)@[0]) && final(self)@ == old(self)@.drop_first(),
    {
        if self.items.len() == 0 {
            None
        } else {
            let x = self.items.remove(0);
            proof {
                assert(self.items@ == old(self)@.drop_first());
                let s = self.items@;
                assert forall|i: int, j: int| 0 <= i < j < s.len() implies #[trigger] s[i].0 >= #[trigger] s[j].0 by {
                    assert(s[i] == old(self)@[i + 1]);
                    assert(s[j] == old(self)@[j + 1]);
                }
            }
            Some(x)
        }
    }
}

/// The item that leaves first has the highest priority in the queue.
pub proof fn law_first_is_highest<T>(s: Seq<(u8, T)>, i: int)
    requires
        by_priority(s),
        0 <= i < s.len(),
    ensures
        s[0].0 >= s[i].0,
{
    if i > 0 {
        assert(s[0].0 >= s[i].0);
    }
}

/// Items of equal priority leave in the order they came: an item enqueued
/// behind another of the same priority stays behind it.
pub proof fn law_equal_priority_fifo<T>(s: Seq<(u8, T)>, k: int, p: u8, item: T, i: int)
    requires
        by_priority(s),
        slot_for(s, k, p),
        0 <= i < s.len(),
        s[i].0 == p,
    ensures
        i < k,
        s.insert(k, (p, item))[i] == s[i],
{
}

} // verus!
