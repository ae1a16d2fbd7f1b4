//! Ring buffer between the audio callback thread and the processing thread.
//! A push that does not fit writes only the prefix that fits and drops the
//! overflowing new samples: nothing older is overwritten and nothing blocks.

use ringbuf::traits::{Consumer, Producer, Split};
use ringbuf::{HeapCons, HeapProd, HeapRb};
use vstd::prelude::*;

verus! {

/// Producing half of an `i16` ring buffer (lives on the writer thread). It
/// holds a `ringbuf::HeapProd<i16>`, whose type Verus cannot declare (its
/// generic bounds are traits of `ringbuf`), so the struct is opaque to Verus.
#[verifier::external_body]
pub struct AudioProducer {
    inner: HeapProd<i16>,
}

/// Consuming half of an `i16` ring buffer (lives on the reader thread). It
/// holds a `ringbuf::HeapCons<i16>`, opaque to Verus for the same reason.
#[verifier::external_body]
pub struct AudioConsumer {
    inner: HeapCons<i16>,
}

/// Number of samples the producer's buffer was created to hold.
pub uninterp spec fn producer_capacity(p: AudioProducer) -> nat;

/// Number of samples the consumer's buffer was created to hold.
pub uninterp spec fn consumer_capacity(c: AudioConsumer) -> nat;

/// Every sample this producer has written into its buffer since the buffer
/// was created, oldest first.
pub uninterp spec fn pushed_samples(p: AudioProducer) -> Seq<i16>;

/// Every sample this consumer has taken out of its buffer since the buffer
/// was created, oldest first.
pub uninterp spec fn popped_samples(c: AudioConsumer) -> Seq<i16>;

/// Creates a `HeapRb::<i16>::new(capacity)` buffer and splits it. The source
/// asserts a non-empty storage, so `capacity` must be positive. Nothing has
/// been written to or read from the new buffer.
#[verifier::external_body]
fn heap_rb_split(capacity: usize) -> (r: (AudioProducer, AudioConsumer))
    requires
        0 < capacity,
        capacity * 2 <= isize::MAX,
    ensures
        producer_capacity(r.0) == capacity,
        consumer_capacity(r.1) == capacity,
        pushed_samples(r.0) == Seq::<i16>::empty(),
        popped_samples(r.1) == Seq::<i16>::empty(),
{
    let (prod, cons) = HeapRb::<i16>::new(capacity).split();
    (AudioProducer { inner: prod }, AudioConsumer { inner: cons })
}

/// Calls `Producer::push_slice`: copies the longest prefix of `data` that fits
/// into the vacant space and returns its length; that prefix is what the
/// producer has written. How long it is depends on how far the consumer
/// thread has read, so only bounds are stated of `n`.
#[verifier::external_body]
fn heap_push_slice(p: &mut AudioProducer, data: &[i16]) -> (n: usize)
    ensures
        n <= data@.len(),
        n <= producer_capacity(*old(p)),
        producer_capacity(*final(p)) == producer_capacity(*old(p)),
        pushed_samples(*final(p)) == pushed_samples(*old(p)) + data@.subrange(0, n as int),
{
    p.inner.push_slice(data)
}

/// Calls `Consumer::pop_slice`: moves the oldest buffered samples into the front
/// of `out` and returns how many; the rest of `out` is untouched. How many
/// samples are buffered depends on the producer thread, so which values arrive
/// is not stated; what arrived is what the consumer has taken out.
#[verifier::external_body]
fn heap_pop_slice(c: &mut AudioConsumer, out: &mut [i16]) -> (n: usize)
    ensures
        n <= old(out)@.len(),
        n <= consumer_capacity(*old(c)),
        final(out)@.len() == old(out)@.len(),
        forall|i: int| n <= i < old(out)@.len() ==> #[trigger] final(out)@[i] == old(out)@[i],
        consumer_capacity(*final(c)) == consumer_capacity(*old(c)),
        popped_samples(*final(c)) == popped_samples(*old(c)) + final(out)@.subrange(0, n as int),
{
    c.inner.pop_slice(out)
}

/// Creates a ring buffer holding `capacity` samples.
pub fn audio_channel(capacity: usize) -> (r: (AudioProducer, AudioConsumer))
    requires
        0 < capacity,
        capacity * 2 <= isize::MAX,
    ensures
        producer_capacity(r.0) == capacity,
        consumer_capacity(r.1) == capacity,
        pushed_samples(r.0) == Seq::<i16>::empty(),
        popped_samples(r.1) == Seq::<i16>::empty(),
{
    heap_rb_split(capacity)
}

impl AudioProducer {
    /// Pushes as many samples as fit, dropping the overflowing new ones, and
    /// returns the number written. Never blocks: safe on the audio callback thread.
    pub fn push_slice(&mut self, data: &[i16]) -> (n: usize)
        ensures
            n <= data@.len(),
            n <= producer_capacity(*old(self)),
            producer_capacity(*final(self)) == producer_capacity(*old(self)),
            pushed_samples(*final(self)) == pushed_samples(*old(self)) + data@.subrange(0, n as int),
    {
        heap_push_slice(self, data)
    }
}

impl AudioConsumer {
    /// Pops at most `out.len()` samples into the front of `out`; returns the number read.
    pub fn pop_slice(&mut self, out: &mut [i16]) -> (n: usize)
        ensures
            n <= old(out)@.len(),
            n <= consumer_capacity(*old(self)),
            final(out)@.len() == old(out)@.len(),
            forall|i: int| n <= i < old(out)@.len() ==> #[trigger] final(out)@[i] == old(out)@[i],
            consumer_capacity(*final(self)) == consumer_capacity(*old(self)),
            popped_samples(*final(self)) == popped_samples(*old(self)) + final(out)@.subrange(
                0,
                n as int,
            ),
    {
        heap_pop_slice(self, out)
    }
}

} // verus!
