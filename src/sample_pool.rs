use crossbeam::queue::SegQueue;
use vstd::prelude::*;

verus! {

/// crossbeam's unbounded lock-free MPMC queue, carried as an opaque value.
#[verifier::external_type_specification]
#[verifier::external_body]
#[verifier::reject_recursive_types(T)]
pub struct ExSegQueue<T>(SegQueue<T>);

/// Relies on crossbeam's `SegQueue::new`: builds a queue; nothing is claimed
/// of its contents, which other threads may change at any time.
pub assume_specification<T>[ SegQueue::<T>::new ]() -> SegQueue<T>;

/// Relies on crossbeam's `SegQueue::push`: appends without blocking on a lock.
pub assume_specification<T>[ SegQueue::<T>::push ](queue: &SegQueue<T>, value: T);

/// Relies on crossbeam's `SegQueue::pop`: takes an item if one is there.
/// The queue is shared, so nothing is claimed of which item, or whether any.
pub assume_specification<T>[ SegQueue::<T>::pop ](queue: &SegQueue<T>) -> Option<T>;

/// A lock-free pool of reusable sample buffers, shared between capture and
/// render threads. Taking a buffer never allocates while the pool holds one.
#[verifier::reject_recursive_types(T)]
pub struct SamplePool<T> {
    free: SegQueue<Vec<T>>,
}

impl<T: Copy> SamplePool<T> {
    /// An empty pool.
    pub fn new() -> (r: Self) {
        SamplePool { free: SegQueue::new() }
    }

    /// A pool warmed with `count` empty buffers, each with room for
    /// `capacity` samples.
    pub fn with_buffers(count: usize, capacity: usize) -> (r: Self) {
        let pool = SamplePool { free: SegQueue::new() };
        let mut i: usize = 0;
        while i < count
            invariant
                i <= count,
            decreases count - i,
        {
            pool.free.push(Vec::with_capacity(capacity));
            i += 1;
        }
        pool
    }

    /// An empty buffer: a pooled one when the pool holds one, else a new
    /// one with room for `hint_capacity` samples.
    pub fn acquire(&self, hint_capacity: usize) -> (r: Vec<T>)
        ensures
            r@.len() == 0,
    {
        match self.free.pop() {
            Some(mut buffer) => {
                buffer.clear();
                buffer
            },
            None => Vec::with_capacity(hint_capacity),
        }
    }

    /// A buffer from the pool holding a copy of `samples`.
    pub fn acquire_filled(&self, samples: &[T]) -> (r: Vec<T>)
        ensures
            r@ == samples@,
    {
        let n = samples.len();
        let mut buffer = self.acquire(n);
        let mut i: usize = 0;
        while i < n
            invariant
                n == samples@.len(),
                i <= n,
                buffer@ == samples@.take(i as int),
            decreases n - i,
        {
            buffer.push(samples[i]);
            assert(buffer@ =~= samples@.take(i + 1));
            i += 1;
        }
        assert(samples@.take(n as int) =~= samples@);
        buffer
    }

    /// The capture path: copies `samples` into a pooled buffer and appends
    /// it to a device's `queue`, without blocking.
    pub fn push_copy(&self, queue: &SegQueue<Vec<T>>, samples: &[T]) {
        let buffer = self.acquire_filled(samples);
        queue.push(buffer);
    }

    /// Hands `buffer` back to the pool, emptied, for later reuse.
    pub fn release(&self, buffer: Vec<T>) {
        let mut buffer = buffer;
        buffer.clear();
        self.free.push(buffer);
    }
}

} // verus!
