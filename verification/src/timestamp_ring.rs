//! Wrapping millisecond timestamps and the bounded history that keeps them.

use vstd::prelude::*;

verus! {

/// Number of timestamps a history keeps: three seconds of edges at a hundred
/// edges per second.
pub const HISTORY_CAPACITY: usize = 300;

/// Milliseconds that pass from `from` to `to` on a 32-bit millisecond counter
/// that wraps around.
pub open spec fn spec_elapsed_ms(from: u32, to: u32) -> u32 {
    if to >= from {
        (to - from) as u32
    } else {
        (to - from + 0x1_0000_0000) as u32
    }
}

/// Milliseconds that pass from `from` to `to`, across a wrap of the counter.
#[verifier::when_used_as_spec(spec_elapsed_ms)]
pub fn elapsed_ms(from: u32, to: u32) -> (gap: u32)
    ensures
        gap == spec_elapsed_ms(from, to),
{
    to.wrapping_sub(from)
}

/// Elapsed time adds up along the way, as long as the whole stretch is
/// shorter than one turn of the counter.
pub proof fn lemma_elapsed_adds(a: u32, b: u32, c: u32)
    requires
        spec_elapsed_ms(a, b) + spec_elapsed_ms(b, c) < 0x1_0000_0000,
    ensures
        spec_elapsed_ms(a, c) == spec_elapsed_ms(a, b) + spec_elapsed_ms(b, c),
{
}

/// A history after one more timestamp: it is appended, and once the history
/// is full the oldest one leaves.
pub open spec fn appended(history: Seq<u32>, t: u32) -> Seq<u32> {
    if history.len() < HISTORY_CAPACITY {
        history.push(t)
    } else {
        history.drop_first().push(t)
    }
}

/// Fixed-capacity ring of timestamps that overwrites the oldest entry once
/// full. Its view is the history it holds, oldest first.
pub struct TimestampRing {
    slots: [u32; HISTORY_CAPACITY],
    next: usize,
    len: usize,
}

impl View for TimestampRing {
    type V = Seq<u32>;

    closed spec fn view(&self) -> Seq<u32> {
        Seq::new(self.len as nat, |i: int| self.slots@[self.slot_of(i)])
    }
}

impl TimestampRing {
    #[verifier::type_invariant]
    spec fn well_formed(self) -> bool {
        self.next < HISTORY_CAPACITY && self.len <= HISTORY_CAPACITY
    }

    /// Slot that holds the `i`-th oldest timestamp.
    spec fn slot_of(self, i: int) -> int {
        let p = self.next - self.len + i;
        if p < 0 {
            p + HISTORY_CAPACITY
        } else {
            p
        }
    }

    /// An empty history.
    pub fn new() -> (ring: Self)
        ensures
            ring@ == Seq::<u32>::empty(),
    {
        let ring = TimestampRing { slots: [0; HISTORY_CAPACITY], next: 0, len: 0 };
        assert(ring@ =~= Seq::<u32>::empty());
        ring
    }

    /// Number of timestamps held, never more than the capacity.
    pub fn len(&self) -> (n: usize)
        ensures
            n == self@.len(),
            n <= HISTORY_CAPACITY,
    {
        proof {
            use_type_invariant(self);
        }
        self.len
    }

    /// The `i`-th oldest timestamp.
    pub fn get(&self, i: usize) -> (t: u32)
        requires
            i < self@.len(),
        ensures
            t == self@[i as int],
    {
        proof {
            use_type_invariant(self);
        }
        let p: usize = self.next + HISTORY_CAPACITY - self.len + i;
        if p >= HISTORY_CAPACITY {
            self.slots[p - HISTORY_CAPACITY]
        } else {
            self.slots[p]
        }
    }

    /// Appends a timestamp, overwriting the oldest one when full.
    pub fn push(&mut self, t: u32)
        ensures
            final(self)@ == appended(old(self)@, t),
    {
        proof {
            use_type_invariant(&*self);
        }
        self.slots[self.next] = t;
        self.next = if self.next + 1 == HISTORY_CAPACITY {
            0
        } else {
            self.next + 1
        };
        if self.len < HISTORY_CAPACITY {
            self.len = self.len + 1;
        }
        assert(self@ =~= appended(old(self)@, t));
    }
}

} // verus!
