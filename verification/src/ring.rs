use vstd::prelude::*;
use ringbuffer::{AllocRingBuffer, RingBuffer};

verus! {

/// `ringbuffer::AllocRingBuffer`, a heap-allocated circular buffer; opaque to
/// the verifier.
#[verifier::external_type_specification]
#[verifier::external_body]
#[verifier::reject_recursive_types(T)]
pub struct ExAllocRingBuffer<T>(AllocRingBuffer<T>);

/// The largest capacity that a ring is made with here. The crate rounds a
/// capacity up to a power of two and allocates that many items at once,
/// without a check that it got them; this bound keeps the rounding and the
/// size within `usize` on every target, and the allocation to four
/// mebibytes.
pub const MAX_RING_CAPACITY: usize = 1_048_576;

/// The items that a ring holds, oldest first.
pub uninterp spec fn ring_items(ring: AllocRingBuffer<u32>) -> Seq<u32>;

/// The capacity that a ring was made with.
pub uninterp spec fn ring_capacity(ring: AllocRingBuffer<u32>) -> nat;

/// The ring's write position: how many items were enqueued since it was made.
pub uninterp spec fn ring_written(ring: AllocRingBuffer<u32>) -> nat;

/// What a ring of capacity `capacity` holds after `item` is enqueued: the
/// item comes last, and a ring that was full loses its oldest.
pub open spec fn enqueued(items: Seq<u32>, capacity: nat, item: u32) -> Seq<u32> {
    if items.len() == capacity {
        items.skip(1).push(item)
    } else {
        items.push(item)
    }
}

/// `AllocRingBuffer::new`: an empty ring of the given capacity, its write
/// position at zero. The crate panics on a capacity of zero, and where the
/// capacity, rounded up to a power of two, or the size of that many items
/// does not fit; `MAX_RING_CAPACITY` keeps clear of both.
#[verifier::external_body]
pub(crate) fn ring_new(capacity: usize) -> (ring: AllocRingBuffer<u32>)
    requires
        0 < capacity <= MAX_RING_CAPACITY,
    ensures
        ring_items(ring) == Seq::<u32>::empty(),
        ring_capacity(ring) == capacity,
        ring_written(ring) == 0,
{
    AllocRingBuffer::new(capacity)
}

/// `RingBuffer::enqueue` on an `AllocRingBuffer`: appends `item`; a full ring
/// first gives up its oldest item, which is returned. The capacity stays.
/// The write position, a `usize`, grows by one, which overflows at its
/// maximum: short of that the call does not panic.
#[verifier::external_body]
pub(crate) fn ring_enqueue(ring: &mut AllocRingBuffer<u32>, item: u32) -> (evicted: Option<u32>)
    requires
        ring_written(*old(ring)) < usize::MAX,
    ensures
        ring_items(*final(ring)) == enqueued(ring_items(*old(ring)), ring_capacity(*old(ring)), item),
        ring_capacity(*final(ring)) == ring_capacity(*old(ring)),
        ring_written(*final(ring)) == ring_written(*old(ring)) + 1,
        evicted == if ring_items(*old(ring)).len() == ring_capacity(*old(ring)) {
            Some(ring_items(*old(ring))[0])
        } else {
            None::<u32>
        },
    no_unwind
{
    ring.enqueue(item)
}

/// `RingBuffer::to_vec` on an `AllocRingBuffer`: a copy of the items, oldest
/// first.
#[verifier::external_body]
pub(crate) fn ring_to_vec(ring: &AllocRingBuffer<u32>) -> (items: Vec<u32>)
    ensures
        items@ == ring_items(*ring),
{
    ring.to_vec()
}

/// `RingBuffer::len` on an `AllocRingBuffer`: the number of items held.
#[verifier::external_body]
pub(crate) fn ring_len(ring: &AllocRingBuffer<u32>) -> (len: usize)
    ensures
        len == ring_items(*ring).len(),
{
    ring.len()
}

/// `RingBuffer::capacity` on an `AllocRingBuffer`: the capacity it was made
/// with.
#[verifier::external_body]
pub(crate) fn ring_capacity_of(ring: &AllocRingBuffer<u32>) -> (capacity: usize)
    ensures
        capacity == ring_capacity(*ring),
{
    ring.capacity()
}

} // verus!
