use vstd::prelude::*;
use ringbuffer::AllocRingBuffer;
use crate::fraction::{Fraction, Ratio};
use crate::ring::{
    ring_capacity, ring_capacity_of, ring_enqueue, ring_items, ring_len, ring_new, ring_to_vec,
    ring_written, MAX_RING_CAPACITY,
};

verus! {

/// A sample counts millionths: a sample of `SAMPLE_SCALE` is a reading of one.
pub const SAMPLE_SCALE: u32 = 1_000_000;

/// The most recent `count` of `samples`, oldest first.
pub open spec fn latest(samples: Seq<u32>, count: nat) -> Seq<u32> {
    if samples.len() <= count {
        samples
    } else {
        samples.skip(samples.len() - count)
    }
}

/// The sum of `samples`.
pub open spec fn sum_of(samples: Seq<u32>) -> int
    decreases samples.len(),
{
    if samples.len() == 0 {
        0
    } else {
        sum_of(samples.drop_last()) + samples.last()
    }
}

/// The arithmetic mean of `samples`, as a reading: their sum over their
/// number, in units of `SAMPLE_SCALE`.
pub open spec fn mean_of(samples: Seq<u32>) -> Ratio {
    Ratio { num: sum_of(samples), den: samples.len() * SAMPLE_SCALE }
}

/// What a window of `capacity` holds once `samples` have been pushed onto
/// `start`, one after the other.
pub open spec fn after_pushes(start: Seq<u32>, capacity: nat, samples: Seq<u32>) -> Seq<u32>
    decreases samples.len(),
{
    if samples.len() == 0 {
        start
    } else {
        latest(after_pushes(start, capacity, samples.drop_last()).push(samples.last()), capacity)
    }
}

/// However many samples are pushed, the window holds the most recent
/// `capacity` of all it has seen, and forgets the rest.
pub proof fn lemma_window_keeps_latest(start: Seq<u32>, capacity: nat, samples: Seq<u32>)
    requires
        capacity > 0,
        start.len() <= capacity,
    ensures
        after_pushes(start, capacity, samples) == latest(start + samples, capacity),
        after_pushes(start, capacity, samples).len() <= capacity,
    decreases samples.len(),
{
    if samples.len() == 0 {
        assert(start + samples =~= start);
    } else {
        let earlier = samples.drop_last();
        let newest = samples.last();
        lemma_window_keeps_latest(start, capacity, earlier);
        assert((start + earlier).push(newest) =~= start + samples);
        assert(latest(latest(start + earlier, capacity).push(newest), capacity) =~= latest(
            (start + earlier).push(newest),
            capacity,
        ));
    }
}

/// Taking one more sample into a sum adds that sample.
proof fn lemma_sum_step(samples: Seq<u32>, i: int)
    requires
        0 <= i < samples.len(),
    ensures
        sum_of(samples.take(i + 1)) == sum_of(samples.take(i)) + samples[i],
{
    assert(samples.take(i + 1).drop_last() =~= samples.take(i));
}

/// A sum of samples is bounded by their number.
pub proof fn lemma_sum_bounds(samples: Seq<u32>)
    ensures
        0 <= sum_of(samples) <= samples.len() * u32::MAX,
    decreases samples.len(),
{
    if samples.len() > 0 {
        lemma_sum_bounds(samples.drop_last());
        assert((samples.len() - 1) * u32::MAX + u32::MAX == samples.len() * u32::MAX)
            by (nonlinear_arith);
    }
}

/// The write position at which a window moves its samples to a fresh ring.
/// The ring counts its writes in a `usize` and never starts over by itself.
/// This is far below the greatest `usize` of any target, and above
/// `MAX_RING_CAPACITY`, so that the samples moved stay below it.
pub const REWIND_AT: usize = 16_777_216;

/// The most recent samples of one reading, up to a fixed number of them.
pub struct SlidingWindow {
    ring: AllocRingBuffer<u32>,
    /// An upper bound on the ring's write position, at most `REWIND_AT`.
    written: usize,
}

impl View for SlidingWindow {
    type V = Seq<u32>;

    /// The samples held, oldest first.
    closed spec fn view(&self) -> Seq<u32> {
        ring_items(self.ring)
    }
}

impl SlidingWindow {
    #[verifier::type_invariant]
    closed spec fn inv(self) -> bool {
        &&& 0 < ring_capacity(self.ring) <= MAX_RING_CAPACITY
        &&& ring_items(self.ring).len() <= ring_capacity(self.ring)
        &&& ring_written(self.ring) <= self.written <= REWIND_AT
    }

    /// The number of samples that the window holds at most.
    pub closed spec fn spec_capacity(&self) -> nat {
        ring_capacity(self.ring)
    }

    /// An empty window for `capacity` samples, or nothing when `capacity` is
    /// zero or above `MAX_RING_CAPACITY`.
    pub fn new(capacity: usize) -> (window: Option<SlidingWindow>)
        ensures
            window is Some <==> 0 < capacity <= MAX_RING_CAPACITY,
            window matches Some(w) ==> w@ == Seq::<u32>::empty() && w.spec_capacity() == capacity,
    {
        if capacity == 0 || capacity > MAX_RING_CAPACITY {
            None
        } else {
            Some(SlidingWindow { ring: ring_new(capacity), written: 0 })
        }
    }

    /// The number of samples that the window holds at most.
    pub fn capacity(&self) -> (capacity: usize)
        ensures
            capacity == self.spec_capacity(),
            0 < capacity <= MAX_RING_CAPACITY,
            self@.len() <= capacity,
    {
        proof {
            use_type_invariant(self);
        }
        ring_capacity_of(&self.ring)
    }

    /// The number of samples held.
    pub fn len(&self) -> (len: usize)
        ensures
            len == self@.len(),
            len <= self.spec_capacity(),
    {
        proof {
            use_type_invariant(self);
        }
        ring_len(&self.ring)
    }

    /// Takes `sample` in as the newest; a full window forgets its oldest.
    pub fn push(&mut self, sample: u32)
        ensures
            final(self)@ == latest(old(self)@.push(sample), old(self).spec_capacity()),
            final(self).spec_capacity() == old(self).spec_capacity(),
            final(self)@.len() > 0,
    {
        proof {
            use_type_invariant(&*self);
        }
        if self.written == REWIND_AT {
            self.rewind();
        }
        proof {
            use_type_invariant(&*self);
        }
        // The bound goes up before the ring does, so that it holds throughout.
        self.written = self.written + 1;
        let _ = ring_enqueue(&mut self.ring, sample);
    }

    /// Moves the samples to a fresh ring, whose write position starts anew.
    fn rewind(&mut self)
        ensures
            final(self)@ == old(self)@,
            final(self).spec_capacity() == old(self).spec_capacity(),
            final(self).written < REWIND_AT,
    {
        proof {
            use_type_invariant(&*self);
        }
        let capacity = ring_capacity_of(&self.ring);
        let samples = ring_to_vec(&self.ring);
        let mut fresh = ring_new(capacity);
        let mut moved: usize = 0;
        while moved < samples.len()
            invariant
                moved <= samples@.len() <= capacity <= MAX_RING_CAPACITY,
                ring_capacity(fresh) == capacity,
                ring_items(fresh) == samples@.take(moved as int),
                ring_written(fresh) == moved,
            decreases samples@.len() - moved,
        {
            let _ = ring_enqueue(&mut fresh, samples[moved]);
            assert(samples@.take(moved as int).push(samples@[moved as int]) =~= samples@.take(
                moved + 1,
            ));
            moved += 1;
        }
        assert(samples@.take(moved as int) =~= samples@);
        *self = SlidingWindow { ring: fresh, written: moved };
    }

    /// The arithmetic mean of the samples held, or nothing when there is
    /// none. It is computed anew from the samples at every call.
    pub fn average(&self) -> (mean: Option<Fraction>)
        ensures
            mean is None <==> self@.len() == 0,
            mean matches Some(m) ==> m@ == mean_of(self@),
    {
        proof {
            use_type_invariant(self);
        }
        let samples = ring_to_vec(&self.ring);
        let count = samples.len();
        if count == 0 {
            return None;
        }
        let mut total: u64 = 0;
        let mut i: usize = 0;
        while i < count
            invariant
                i <= count == samples@.len() <= MAX_RING_CAPACITY,
                total == sum_of(samples@.take(i as int)),
            decreases count - i,
        {
            proof {
                lemma_sum_step(samples@, i as int);
                lemma_sum_bounds(samples@.take(i + 1));
                assert((i + 1) * u32::MAX <= MAX_RING_CAPACITY * u32::MAX) by (nonlinear_arith)
                    requires
                        i + 1 <= MAX_RING_CAPACITY,
                ;
            }
            total = total + samples[i] as u64;
            i += 1;
        }
        assert(samples@.take(i as int) =~= samples@);
        assert(count * SAMPLE_SCALE <= MAX_RING_CAPACITY * SAMPLE_SCALE) by (nonlinear_arith)
            requires
                count <= MAX_RING_CAPACITY,
        ;
        Fraction::new(total as i128, count as u64 * SAMPLE_SCALE as u64)
    }
}

} // verus!
