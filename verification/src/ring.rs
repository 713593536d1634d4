//! Bounded ring buffers, allocation-bounded before allocation.
//!
//! Two overflow policies coexist and must never be merged:
//! - `evicting_push`: derived data (market series); the oldest entry may fall out.
//! - `try_push`: records (journal tail, decision log); full means a typed
//!   rejection and the caller must drain explicitly. Records are never
//!   silently dropped.
use std::collections::VecDeque;
use std::collections::vec_deque::Iter;
use vstd::prelude::*;

verus! {

broadcast use vstd::std_specs::vecdeque::group_vec_dequeue_axioms;

/// Hard cap on any ring capacity.
pub const MAX_RING_CAPACITY: usize = 65_536;

#[derive(Debug, Clone, Copy, PartialEq, Eq, Structural)]
pub enum RingConfigError {
    ZeroCapacity,
    CapacityAboveMax { requested: usize },
}

#[derive(Debug, Clone, Copy, PartialEq, Eq, Structural)]
pub struct RingFull;

#[derive(Debug, PartialEq, Eq)]
pub enum RingPush<T> {
    Stored,
    Evicted(T),
}

#[derive(Debug, Clone)]
pub struct FixedRing<T> {
    buf: VecDeque<T>,
    capacity: usize,
}

impl<T> View for FixedRing<T> {
    type V = Seq<T>;

    closed spec fn view(&self) -> Seq<T> {
        self.buf@
    }
}

impl<T> FixedRing<T> {
    /// The capacity the ring was made with.
    pub closed spec fn cap(&self) -> nat {
        self.capacity as nat
    }

    /// Well-formedness: the contents never exceed the capacity, and the
    /// capacity is inside `[1, MAX_RING_CAPACITY]`.
    pub open spec fn wf(&self) -> bool {
        &&& 1 <= self.cap() <= MAX_RING_CAPACITY
        &&& self@.len() <= self.cap()
    }

    pub fn new(capacity: usize) -> (r: Result<Self, RingConfigError>)
        ensures
            capacity == 0 ==> r == Err::<Self, RingConfigError>(RingConfigError::ZeroCapacity),
            capacity > MAX_RING_CAPACITY ==> r == Err::<Self, RingConfigError>(
                RingConfigError::CapacityAboveMax { requested: capacity },
            ),
            1 <= capacity <= MAX_RING_CAPACITY ==> (r matches Ok(ring) && ring.wf()
                && ring@ == Seq::<T>::empty() && ring.cap() == capacity),
    {
        if capacity == 0 {
            return Err(RingConfigError::ZeroCapacity);
        }
        if capacity > MAX_RING_CAPACITY {
            return Err(RingConfigError::CapacityAboveMax { requested: capacity });
        }
        Ok(FixedRing { buf: VecDeque::with_capacity(capacity), capacity })
    }

    /// Derived-data policy: overwrite the oldest when full, returning the
    /// evicted element so the caller can observe it.
    pub fn evicting_push(&mut self, item: T) -> (r: RingPush<T>)
        requires
            old(self).wf(),
        ensures
            final(self).wf(),
            final(self).cap() == old(self).cap(),
            old(self)@.len() < old(self).cap() ==> (r == RingPush::<T>::Stored
                && final(self)@ == old(self)@.push(item)),
            old(self)@.len() >= old(self).cap() ==> (r == RingPush::<T>::Evicted(old(self)@[0])
                && final(self)@ == old(self)@.subrange(1, old(self)@.len() as int).push(item)),
    {
        if self.buf.len() >= self.capacity {
            let evicted = self.buf.pop_front();
            self.buf.push_back(item);
            return match evicted {
                Some(old_item) => RingPush::Evicted(old_item),
                None => RingPush::Stored,
            };
        }
        self.buf.push_back(item);
        RingPush::Stored
    }

    /// Record policy: full is a typed rejection; the caller must drain.
    pub fn try_push(&mut self, item: T) -> (r: Result<(), RingFull>)
        requires
            old(self).wf(),
        ensures
            final(self).wf(),
            final(self).cap() == old(self).cap(),
            old(self)@.len() < old(self).cap() ==> (r is Ok && final(self)@ == old(self)@.push(
                item,
            )),
            old(self)@.len() >= old(self).cap() ==> (r == Err::<(), RingFull>(RingFull)
                && final(self)@ == old(self)@),
    {
        if self.buf.len() >= self.capacity {
            return Err(RingFull);
        }
        self.buf.push_back(item);
        Ok(())
    }

    /// Explicit flush: removes and returns everything, oldest first.
    pub fn drain_all(&mut self) -> (out: Vec<T>)
        requires
            old(self).wf(),
        ensures
            final(self).wf(),
            final(self).cap() == old(self).cap(),
            out@ == old(self)@,
            final(self)@ == Seq::<T>::empty(),
    {
        let mut out: Vec<T> = Vec::new();
        let ghost initial = self.buf@;
        while self.buf.len() > 0
            invariant
                self.wf(),
                self.cap() == old(self).cap(),
                initial == old(self)@,
                out@ + self.buf@ == initial,
            decreases self.buf@.len(),
        {
            match self.buf.pop_front() {
                Some(x) => {
                    proof {
                        assert(out@.push(x) + self.buf@ =~= initial);
                    }
                    out.push(x);
                },
                None => {},
            }
        }
        assert(out@ =~= initial);
        out
    }

    pub fn len(&self) -> (n: usize)
        ensures
            n == self@.len(),
    {
        self.buf.len()
    }

    pub fn is_empty(&self) -> (b: bool)
        ensures
            b == (self@.len() == 0),
    {
        self.buf.len() == 0
    }

    pub fn is_full(&self) -> (b: bool)
        ensures
            b == (self@.len() >= self.cap()),
    {
        self.buf.len() >= self.capacity
    }

    pub fn capacity(&self) -> (c: usize)
        ensures
            c == self.cap(),
    {
        self.capacity
    }

    pub fn latest(&self) -> (r: Option<&T>)
        ensures
            self@.len() == 0 ==> r is None,
            self@.len() > 0 ==> r == Some(&self@[self@.len() - 1]),
    {
        let n = self.buf.len();
        if n == 0 {
            None
        } else {
            Some(&self.buf[n - 1])
        }
    }

    /// Iterate the contents, oldest first.
    pub fn iter(&self) -> (it: Iter<'_, T>)
        ensures
            vstd::std_specs::iter::IteratorSpec::remaining(&it) == self@.map_values(|x: T| &x),
    {
        self.buf.iter()
    }
}

impl<T: Copy> FixedRing<T> {
    /// A copy of the contents, oldest first.
    pub fn to_vec(&self) -> (v: Vec<T>)
        ensures
            v@ == self@,
    {
        let mut v: Vec<T> = Vec::new();
        let n = self.buf.len();
        let mut i: usize = 0;
        while i < n
            invariant
                n == self@.len(),
                i <= n,
                v@ == self@.subrange(0, i as int),
            decreases n - i,
        {
            v.push(self.buf[i]);
            i = i + 1;
            assert(v@ =~= self@.subrange(0, i as int));
        }
        assert(self@.subrange(0, n as int) =~= self@);
        v
    }
}

} // verus!
