use vstd::prelude::*;

verus! {

/// The last `keep` items of `s` (all of `s` when it is not longer than that).
pub open spec fn keep_last<T>(s: Seq<T>, keep: nat) -> Seq<T> {
    if s.len() <= keep {
        s
    } else {
        s.subrange(s.len() - keep, s.len() as int)
    }
}

/// How many samples a ring buffer of `capacity` slots can hold unread:
/// one slot always stays free so that full and empty can be told apart.
pub open spec fn usable(capacity: nat) -> nat {
    if capacity > 0 {
        (capacity - 1) as nat
    } else {
        0
    }
}

/// The unread contents after writing `w` behind the unread contents `c`:
/// when they do not fit, the oldest samples are dropped.
pub open spec fn contents_after_write<T>(c: Seq<T>, w: Seq<T>, capacity: nat) -> Seq<T> {
    keep_last(c + w, usable(capacity))
}

/// How many unread samples are overwritten when `n` samples are written
/// behind `len` unread ones.
pub open spec fn overflow_of(len: nat, n: nat, capacity: nat) -> nat {
    if len + n > usable(capacity) {
        (len + n - usable(capacity)) as nat
    } else {
        0
    }
}

/// `n`, or `u64::MAX` when it is larger: a counter that saturates.
pub open spec fn saturated(n: nat) -> nat {
    if n > u64::MAX {
        u64::MAX as nat
    } else {
        n
    }
}

/// How many of `n` requested samples can be served from the unread contents `c`.
pub open spec fn readable<T>(c: Seq<T>, n: nat) -> nat {
    if n < c.len() {
        n
    } else {
        c.len()
    }
}

/// `x` is a value that `T::default()` returns: silence for a sample type.
pub open spec fn is_silence<T: Default>(x: T) -> bool {
    call_ensures(T::default, (), x)
}

proof fn lemma_keep_last_push<T>(a: Seq<T>, x: T, keep: nat)
    ensures
        keep_last(keep_last(a, keep).push(x), keep) == keep_last(a.push(x), keep),
{
    if a.len() > keep {
        assert(keep_last(keep_last(a, keep).push(x), keep) =~= keep_last(a.push(x), keep));
    }
}

/// Writing fewer samples than the capacity into an empty buffer and then
/// reading as many back returns exactly the written samples, oldest first,
/// and leaves the buffer empty; no sample is overwritten on the way.
pub proof fn lemma_write_then_read<T>(w: Seq<T>, capacity: nat)
    requires
        w.len() < capacity,
    ensures
        contents_after_write(Seq::<T>::empty(), w, capacity) == w,
        overflow_of(0, w.len(), capacity) == 0,
        readable(w, w.len()) == w.len(),
        w.take(w.len() as int) == w,
        w.skip(w.len() as int) == Seq::<T>::empty(),
{
    assert(Seq::<T>::empty() + w =~= w);
    assert(w.take(w.len() as int) =~= w);
    assert(w.skip(w.len() as int) =~= Seq::<T>::empty());
}

/// Writing half the capacity into an empty buffer of even capacity fills it
/// to exactly one half: twice the unread count equals the capacity.
pub proof fn lemma_half_fill<T>(w: Seq<T>, capacity: nat)
    requires
        capacity > 0,
        capacity % 2 == 0,
        w.len() == capacity / 2,
    ensures
        contents_after_write(Seq::<T>::empty(), w, capacity).len() * 2 == capacity,
{
    assert(Seq::<T>::empty() + w =~= w);
}

/// A single-writer, single-reader circular buffer of samples with a
/// drop-oldest overflow policy.
pub struct RingBuffer<T> {
    buffer: Vec<T>,
    write_pos: usize,
    read_pos: usize,
    capacity: usize,
    overwritten: u64,
}

impl<T> RingBuffer<T> {
    /// The number of slots.
    pub closed spec fn cap(&self) -> nat {
        self.capacity as nat
    }

    pub closed spec fn wf(&self) -> bool {
        &&& self.buffer@.len() == self.capacity
        &&& self.capacity == 0 ==> self.write_pos == 0 && self.read_pos == 0
        &&& self.capacity > 0 ==> self.write_pos < self.capacity && self.read_pos < self.capacity
    }

    /// How many unread samples have been overwritten since creation.
    pub closed spec fn dropped(&self) -> nat {
        self.overwritten as nat
    }

    /// Number of unread samples: the distance from the read cursor to the
    /// write cursor, going round the buffer.
    closed spec fn filled(&self) -> nat {
        if self.write_pos >= self.read_pos {
            (self.write_pos - self.read_pos) as nat
        } else {
            (self.capacity - self.read_pos + self.write_pos) as nat
        }
    }

    /// The slot that holds the `i`-th unread sample.
    closed spec fn slot(&self, i: int) -> int {
        if self.read_pos + i < self.capacity {
            self.read_pos + i
        } else {
            self.read_pos + i - self.capacity
        }
    }
}

impl<T> View for RingBuffer<T> {
    type V = Seq<T>;

    /// The unread samples, oldest first.
    closed spec fn view(&self) -> Seq<T> {
        Seq::new(self.filled(), |i: int| self.buffer@[self.slot(i)])
    }
}

impl<T: Copy + Default> RingBuffer<T> {
    /// An empty buffer with `capacity` slots, all silent.
    pub fn new(capacity: usize) -> (r: Self)
        ensures
            r.wf(),
            r.cap() == capacity,
            r@ == Seq::<T>::empty(),
            r.dropped() == 0,
    {
        let mut buffer: Vec<T> = Vec::with_capacity(capacity);
        let mut i: usize = 0;
        while i < capacity
            invariant
                i <= capacity,
                buffer@.len() == i,
            decreases capacity - i,
        {
            buffer.push(T::default());
            i += 1;
        }
        let r = RingBuffer { buffer, write_pos: 0, read_pos: 0, capacity, overwritten: 0 };
        assert(r@ =~= Seq::<T>::empty());
        r
    }

    /// Stores one sample behind the unread ones, dropping the oldest
    /// unread sample when the buffer is full.
    fn push_overwrite(&mut self, sample: T)
        requires
            old(self).wf(),
            old(self).cap() > 0,
        ensures
            final(self).wf(),
            final(self).cap() == old(self).cap(),
            final(self)@ == keep_last(old(self)@.push(sample), usable(old(self).cap())),
            final(self).dropped() == saturated(
                old(self).dropped() + overflow_of(old(self)@.len(), 1, old(self).cap()),
            ),
    {
        let ghost before = self@;
        let ghost len = self.filled();
        assert(self.slot(len as int) == self.write_pos);
        self.buffer.set(self.write_pos, sample);
        assert forall|i: int| 0 <= i < len implies #[trigger] self.buffer@[self.slot(i)] == before[i]
        by {
            assert(self.slot(i) != self.write_pos);
        }
        self.write_pos = if self.write_pos + 1 == self.capacity { 0 } else { self.write_pos + 1 };
        if self.write_pos == self.read_pos {
            self.read_pos = if self.read_pos + 1 == self.capacity { 0 } else { self.read_pos + 1 };
            if self.overwritten < u64::MAX {
                self.overwritten = self.overwritten + 1;
            }
            assert(self@ =~= before.push(sample).subrange(1, len + 1 as int));
        } else {
            assert(self@ =~= before.push(sample));
        }
    }

    /// Writes all of `samples`; on overflow the oldest unread samples are
    /// overwritten. Returns the number of samples written.
    pub fn write(&mut self, samples: &[T]) -> (written: usize)
        requires
            old(self).wf(),
            old(self).cap() > 0 || samples@.len() == 0,
        ensures
            final(self).wf(),
            final(self).cap() == old(self).cap(),
            final(self)@ == contents_after_write(old(self)@, samples@, old(self).cap()),
            final(self).dropped() == saturated(
                old(self).dropped() + overflow_of(old(self)@.len(), samples@.len(), old(self).cap()),
            ),
            written == samples@.len(),
    {
        let n = samples.len();
        let mut written: usize = 0;
        assert(old(self)@ + samples@.take(0) =~= old(self)@);
        while written < n
            invariant
                self.wf(),
                self.cap() == old(self).cap(),
                self.cap() > 0 || n == 0,
                n == samples@.len(),
                written <= n,
                self@ == contents_after_write(old(self)@, samples@.take(written as int), self.cap()),
                self.dropped() == saturated(
                    old(self).dropped() + overflow_of(old(self)@.len(), written as nat, self.cap()),
                ),
            decreases n - written,
        {
            let sample = samples[written];
            proof {
                let a = old(self)@ + samples@.take(written as int);
                assert(old(self)@ + samples@.take(written + 1) =~= a.push(sample));
                lemma_keep_last_push(a, sample, usable(self.cap()));
            }
            self.push_overwrite(sample);
            written += 1;
        }
        assert(samples@.take(n as int) =~= samples@);
        written
    }

    /// Takes the oldest unread sample, if there is one.
    fn pop_oldest(&mut self) -> (r: Option<T>)
        requires
            old(self).wf(),
        ensures
            final(self).wf(),
            final(self).cap() == old(self).cap(),
            final(self).dropped() == old(self).dropped(),
            old(self)@.len() == 0 ==> r == Option::<T>::None && final(self)@ == old(self)@,
            old(self)@.len() > 0 ==> r == Some(old(self)@[0]) && final(self)@ == old(self)@.drop_first(),
    {
        if self.read_pos == self.write_pos {
            None
        } else {
            let ghost before = self@;
            let sample = self.buffer[self.read_pos];
            assert(self.slot(0) == self.read_pos);
            self.read_pos = if self.read_pos + 1 == self.capacity { 0 } else { self.read_pos + 1 };
            assert(self@ =~= before.drop_first());
            Some(sample)
        }
    }

    /// Fills all of `output`: first with unread samples, oldest first, then
    /// with silence once none are left. Returns the length of `output`.
    pub fn read(&mut self, output: &mut [T]) -> (count: usize)
        requires
            old(self).wf(),
        ensures
            final(self).wf(),
            final(self).cap() == old(self).cap(),
            final(self).dropped() == old(self).dropped(),
            count == old(output)@.len(),
            final(output)@.len() == old(output)@.len(),
            final(output)@.take(readable(old(self)@, count as nat) as int)
                == old(self)@.take(readable(old(self)@, count as nat) as int),
            forall|i: int|
                readable(old(self)@, count as nat) <= i < count ==> is_silence(
                    #[trigger] final(output)@[i],
                ),
            final(self)@ == old(self)@.skip(readable(old(self)@, count as nat) as int),
    {
        let n = output.len();
        let mut count: usize = 0;
        while count < n
            invariant
                self.wf(),
                self.cap() == old(self).cap(),
                self.dropped() == old(self).dropped(),
                n == old(output)@.len(),
                output@.len() == n,
                count <= n,
                output@.take(readable(old(self)@, count as nat) as int)
                    == old(self)@.take(readable(old(self)@, count as nat) as int),
                forall|i: int|
                    readable(old(self)@, count as nat) <= i < count ==> is_silence(
                        #[trigger] output@[i],
                    ),
                self@ == old(self)@.skip(readable(old(self)@, count as nat) as int),
            decreases n - count,
        {
            let ghost k: int = readable(old(self)@, count as nat) as int;
            let ghost before = output@;
            match self.pop_oldest() {
                Some(sample) => {
                    output[count] = sample;
                    assert(output@.take(k + 1) =~= old(self)@.take(k + 1)) by {
                        assert(before.take(k) == old(self)@.take(k));
                    }
                    assert(old(self)@.skip(k).drop_first() =~= old(self)@.skip(k + 1));
                },
                None => {
                    let silence = T::default();
                    output[count] = silence;
                    assert(output@.take(k) =~= before.take(k));
                },
            }
            count += 1;
        }
        count
    }

    /// Fill level as `(unread samples, capacity)`; the fill ratio is the
    /// first divided by the second.
    pub fn fill_ratio(&self) -> (r: (usize, usize))
        requires
            self.wf(),
        ensures
            r.0 == self@.len(),
            r.1 == self.cap(),
    {
        let filled = if self.write_pos >= self.read_pos {
            self.write_pos - self.read_pos
        } else {
            self.capacity - self.read_pos + self.write_pos
        };
        (filled, self.capacity)
    }

    /// How many unread samples writes have overwritten so far, saturating
    /// at `u64::MAX`.
    pub fn overflow_count(&self) -> (r: u64)
        ensures
            r == self.dropped(),
    {
        self.overwritten
    }

    /// Discards all unread samples; the overflow count is kept.
    pub fn clear(&mut self)
        requires
            old(self).wf(),
        ensures
            final(self).wf(),
            final(self).cap() == old(self).cap(),
            final(self)@ == Seq::<T>::empty(),
            final(self).dropped() == old(self).dropped(),
    {
        self.write_pos = 0;
        self.read_pos = 0;
        assert(self@ =~= Seq::<T>::empty());
    }
}

} // verus!
