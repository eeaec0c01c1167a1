//! The history window: a fixed-capacity, insertion-ordered store of the most
//! recently observed sample vectors, with overwrite-on-full ring semantics.
//!
//! The slot store is preallocated at construction and indexed by position, so
//! pushing never grows a container; when the window is full the oldest vector
//! is overwritten by the newest.

use vstd::prelude::*;
use crate::linalg::zero_vec;

verus! {

/// What one push leaves in a window of the given capacity: the vector is
/// appended, and if the window was full the oldest entry leaves first.
/// A window of capacity zero never holds anything.
pub open spec fn win_push(s: Seq<Seq<i64>>, cap: nat, v: Seq<i64>) -> Seq<Seq<i64>> {
    if cap == 0 {
        s
    } else if s.len() < cap {
        s.push(v)
    } else {
        s.skip(1).push(v)
    }
}

/// Bounded, insertion-ordered window of sample vectors.
pub struct HistoryWindow {
    capacity: usize,
    width: usize,
    start: usize,
    count: usize,
    slots: Vec<Vec<i64>>,
}

impl HistoryWindow {
    /// Slot index that holds logical entry `i` (0 is the oldest).
    pub closed spec fn slot_of(self, i: int) -> int {
        if self.start + i < self.capacity {
            self.start + i
        } else {
            self.start + i - self.capacity
        }
    }

    /// The held vectors, oldest to newest.
    pub closed spec fn contents(self) -> Seq<Seq<i64>> {
        Seq::new(self.count as nat, |i: int| self.slots@[self.slot_of(i)]@)
    }

    /// The fixed capacity.
    pub closed spec fn cap(self) -> nat {
        self.capacity as nat
    }

    /// The length of every held vector.
    pub closed spec fn width_spec(self) -> nat {
        self.width as nat
    }

    /// Internal consistency: the slot store has exactly `capacity` slots of
    /// the right width, the live range fits, and the ring origin is in range.
    pub closed spec fn wf(self) -> bool {
        &&& self.slots@.len() == self.capacity
        &&& self.count <= self.capacity
        &&& (self.start < self.capacity || self.start == 0)
        &&& self.capacity <= usize::MAX / 2
        &&& forall|i: int|
            0 <= i < self.slots@.len() ==> (#[trigger] self.slots@[i])@.len() == self.width
    }

    /// A fresh, empty window.  The capacity bound keeps ring arithmetic
    /// within `usize`.
    pub fn new(capacity: usize, width: usize) -> (h: HistoryWindow)
        requires
            capacity <= usize::MAX / 2,
        ensures
            h.wf(),
            h.cap() == capacity,
            h.width_spec() == width,
            h.contents() == Seq::<Seq<i64>>::empty(),
    {
        let mut slots: Vec<Vec<i64>> = Vec::new();
        let mut k: usize = 0;
        while k < capacity
            invariant
                k <= capacity,
                slots@.len() == k,
                forall|i: int| 0 <= i < k ==> (#[trigger] slots@[i])@.len() == width,
            decreases capacity - k,
        {
            slots.push(zero_vec(width));
            k = k + 1;
        }
        let h = HistoryWindow { capacity, width, start: 0, count: 0, slots };
        proof {
            assert(h.contents() =~= Seq::<Seq<i64>>::empty());
        }
        h
    }

    /// Number of held vectors; never more than the capacity.
    pub fn len(&self) -> (n: usize)
        requires
            self.wf(),
        ensures
            n == self.contents().len(),
            n <= self.cap(),
    {
        self.count
    }

    /// The fixed capacity.
    pub fn capacity(&self) -> (c: usize)
        ensures
            c == self.cap(),
    {
        self.capacity
    }

    /// Logical entry `i`, 0 being the oldest held vector.
    pub fn get(&self, i: usize) -> (v: &Vec<i64>)
        requires
            self.wf(),
            i < self.contents().len(),
        ensures
            v@ == self.contents()[i as int],
            v@.len() == self.width_spec(),
    {
        let idx = if self.start + i >= self.capacity {
            self.start + i - self.capacity
        } else {
            self.start + i
        };
        &self.slots[idx]
    }

    /// Admit one vector, evicting the oldest if the window is full.
    pub fn push(&mut self, v: Vec<i64>)
        requires
            old(self).wf(),
            v@.len() == old(self).width_spec(),
        ensures
            final(self).wf(),
            final(self).cap() == old(self).cap(),
            final(self).width_spec() == old(self).width_spec(),
            final(self).contents() == win_push(old(self).contents(), old(self).cap(), v@),
    {
        if self.capacity == 0 {
            return;
        }
        if self.count < self.capacity {
            let idx = if self.start + self.count >= self.capacity {
                self.start + self.count - self.capacity
            } else {
                self.start + self.count
            };
            self.slots[idx] = v;
            self.count = self.count + 1;
            proof {
                assert(self.contents() =~= win_push(old(self).contents(), old(self).cap(), v@));
            }
        } else {
            let idx = self.start;
            self.slots[idx] = v;
            self.start = if self.start + 1 >= self.capacity {
                0
            } else {
                self.start + 1
            };
            proof {
                assert(self.contents() =~= old(self).contents().skip(1).push(v@));
            }
        }
    }
}

/// What a run of pushes leaves behind: the first `n` vectors of `vs`,
/// pushed in order into a window whose contents start as `s`.
pub open spec fn push_seq_spec(s: Seq<Seq<i64>>, cap: nat, vs: Seq<Seq<i64>>, n: int) -> Seq<
    Seq<i64>,
>
    decreases n,
{
    if n <= 0 {
        s
    } else {
        win_push(push_seq_spec(s, cap, vs, n - 1), cap, vs[n - 1])
    }
}

/// Pushing the first `n` of `vs` into an initially empty window of positive
/// capacity leaves exactly the last `min(n, cap)` of them, in insertion
/// order, the oldest having been evicted first.
pub proof fn lemma_push_seq_from_empty(cap: nat, vs: Seq<Seq<i64>>, n: int)
    requires
        cap > 0,
        0 <= n <= vs.len(),
    ensures
        push_seq_spec(Seq::<Seq<i64>>::empty(), cap, vs, n) == if n <= cap {
            vs.take(n)
        } else {
            vs.subrange(n - cap, n)
        },
    decreases n,
{
    if n > 0 {
        lemma_push_seq_from_empty(cap, vs, n - 1);
        let prev = push_seq_spec(Seq::<Seq<i64>>::empty(), cap, vs, n - 1);
        let cur = win_push(prev, cap, vs[n - 1]);
        if n <= cap {
            assert(prev == vs.take(n - 1));
            assert(cur =~= vs.take(n));
        } else if n - 1 <= cap {
            assert(prev == vs.take(n - 1));
            assert(prev.len() == cap);
            assert(cur =~= vs.subrange(n - cap, n));
        } else {
            assert(prev == vs.subrange(n - 1 - cap, n - 1));
            assert(prev.len() == cap);
            assert(cur =~= vs.subrange(n - cap, n));
        }
    } else {
        assert(push_seq_spec(Seq::<Seq<i64>>::empty(), cap, vs, n) =~= vs.take(n));
    }
}

/// Window overwrite: pushing `cap + 1` vectors into an empty window of
/// capacity `cap` leaves exactly the last `cap` pushed vectors, in
/// insertion order, the oldest having been evicted.
pub proof fn lemma_window_overwrite(cap: nat, vs: Seq<Seq<i64>>)
    requires
        cap > 0,
        vs.len() == cap + 1,
    ensures
        push_seq_spec(Seq::<Seq<i64>>::empty(), cap, vs, vs.len() as int) == vs.skip(1),
{
    lemma_push_seq_from_empty(cap, vs, vs.len() as int);
    assert(vs.subrange(1, (cap + 1) as int) =~= vs.skip(1));
}

} // verus!
