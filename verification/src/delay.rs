//! Ring storage of the delay line used for the interaural time difference.
//!
//! The delay line keeps the most recent input samples in a circular buffer:
//! each input is stored at the write position, the delayed output is read
//! back relative to that position, and the write position then moves on one
//! slot, wrapping at the end. The interpolated read (a fractional position)
//! is done by the caller on the values this ring hands out.

use vstd::prelude::*;

verus! {

/// The number of slots a ring built for `max_delay_samples` has: at least two
/// samples of delay, plus two slots of headroom for the interpolated read.
pub open spec fn ring_len(max_delay_samples: nat) -> nat {
    (if max_delay_samples < 2 {
        2
    } else {
        max_delay_samples
    }) + 2
}

/// A ring has room for every delay up to the one it is built for, plus two
/// slots of headroom, and never fewer than four slots: exactly
/// `max(max_delay_samples, 2) + 2`.
pub proof fn lemma_ring_len(max_delay_samples: nat)
    ensures
        ring_len(max_delay_samples) >= max_delay_samples + 2,
        ring_len(max_delay_samples) >= 4,
        max_delay_samples >= 2 ==> ring_len(max_delay_samples) == max_delay_samples + 2,
        max_delay_samples < 2 ==> ring_len(max_delay_samples) == 4,
{
}

/// Circular sample storage with a write position.
#[derive(Debug)]
pub struct DelayRing<T> {
    buffer: Vec<T>,
    write_pos: usize,
}

impl<T> DelayRing<T> {
    #[verifier::type_invariant]
    spec fn well_formed(self) -> bool {
        &&& self.buffer.len() >= 4
        &&& self.write_pos < self.buffer.len()
    }

    /// The stored samples, by slot.
    pub closed spec fn slots(&self) -> Seq<T> {
        self.buffer@
    }

    /// The slot the next input is written to.
    pub closed spec fn position(&self) -> nat {
        self.write_pos as nat
    }
}

impl<T: Copy> DelayRing<T> {
    /// A ring for delays of up to `max_delay_samples`, every slot holding
    /// `fill`, writing first to slot 0.
    pub fn new(max_delay_samples: usize, fill: T) -> (r: Self)
        requires
            max_delay_samples <= usize::MAX - 2,
        ensures
            r.slots().len() == ring_len(max_delay_samples as nat),
            max_delay_samples < 2 ==> r.slots().len() == 4,
            max_delay_samples >= 2 ==> r.slots().len() == max_delay_samples + 2,
            r.slots().len() >= max_delay_samples + 2,
            forall|i: int| 0 <= i < r.slots().len() ==> #[trigger] r.slots()[i] == fill,
            r.position() == 0,
    {
        let len = if max_delay_samples < 2 {
            2
        } else {
            max_delay_samples
        } + 2;
        let mut buffer: Vec<T> = Vec::new();
        while buffer.len() < len
            invariant
                buffer.len() <= len,
                forall|i: int| 0 <= i < buffer.len() ==> #[trigger] buffer@[i] == fill,
            decreases len - buffer.len(),
        {
            buffer.push(fill);
        }
        DelayRing { buffer, write_pos: 0 }
    }

    /// The number of slots.
    pub fn len(&self) -> (r: usize)
        ensures
            r == self.slots().len(),
            r >= 4,
    {
        proof {
            use_type_invariant(self);
        }
        self.buffer.len()
    }

    /// The slot the next input is written to.
    pub fn write_pos(&self) -> (r: usize)
        ensures
            r == self.position(),
            r < self.slots().len(),
    {
        proof {
            use_type_invariant(self);
        }
        self.write_pos
    }

    /// The sample in slot `i`.
    pub fn get(&self, i: usize) -> (r: T)
        requires
            i < self.slots().len(),
        ensures
            r == self.slots()[i as int],
    {
        self.buffer[i]
    }

    /// The slot after `i`, wrapping from the last slot to the first.
    pub fn next_index(&self, i: usize) -> (r: usize)
        requires
            i < self.slots().len(),
        ensures
            r == (i + 1) % (self.slots().len() as int),
            r < self.slots().len(),
            r == if i + 1 == self.slots().len() {
                0
            } else {
                i + 1
            },
    {
        proof {
            use_type_invariant(self);
            let n = self.buffer.len();
            if i + 1 < n {
                vstd::arithmetic::div_mod::lemma_small_mod((i + 1) as nat, n as nat);
            } else {
                vstd::arithmetic::div_mod::lemma_mod_self_0(n as int);
            }
        }
        (i + 1) % self.buffer.len()
    }

    /// Stores `x` at the write position; the position does not move.
    pub fn write(&mut self, x: T)
        ensures
            final(self).slots() == old(self).slots().update(old(self).position() as int, x),
            final(self).position() == old(self).position(),
    {
        proof {
            use_type_invariant(&*self);
        }
        let p = self.write_pos;
        self.buffer[p] = x;
    }

    /// Moves the write position on one slot, wrapping at the end.
    pub fn advance(&mut self)
        ensures
            final(self).slots() == old(self).slots(),
            final(self).position() == (old(self).position() + 1) % old(self).slots().len(),
    {
        proof {
            use_type_invariant(&*self);
        }
        self.write_pos = (self.write_pos + 1) % self.buffer.len();
    }

    /// Sets every slot to `fill` and the write position back to slot 0.
    pub fn reset(&mut self, fill: T)
        ensures
            final(self).slots().len() == old(self).slots().len(),
            forall|i: int| 0 <= i < final(self).slots().len() ==> #[trigger] final(self).slots()[i] == fill,
            final(self).position() == 0,
    {
        proof {
            use_type_invariant(&*self);
        }
        let n = self.buffer.len();
        let mut i: usize = 0;
        self.write_pos = 0;
        while i < n
            invariant
                n == self.buffer.len(),
                n >= 4,
                self.write_pos == 0,
                i <= n,
                forall|j: int| 0 <= j < i ==> #[trigger] self.buffer@[j] == fill,
            decreases n - i,
        {
            self.buffer[i] = fill;
            i += 1;
        }
    }
}

impl<T: Copy> Clone for DelayRing<T> {
    /// A copy holding the same samples and position.
    fn clone(&self) -> (r: Self)
        ensures
            r.slots() == self.slots(),
            r.position() == self.position(),
    {
        proof {
            use_type_invariant(self);
        }
        let mut buffer: Vec<T> = Vec::new();
        let mut i: usize = 0;
        while i < self.buffer.len()
            invariant
                i <= self.buffer.len(),
                buffer@ == self.buffer@.subrange(0, i as int),
            decreases self.buffer.len() - i,
        {
            buffer.push(self.buffer[i]);
            proof {
                assert(self.buffer@.subrange(0, i + 1) =~= self.buffer@.subrange(0, i as int).push(
                    self.buffer@[i as int],
                ));
            }
            i += 1;
        }
        proof {
            assert(self.buffer@.subrange(0, self.buffer@.len() as int) =~= self.buffer@);
        }
        DelayRing { buffer, write_pos: self.write_pos }
    }
}

} // verus!
