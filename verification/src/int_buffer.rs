//! The wide-integer instantiation of the circular buffer, with the exact
//! method surface the host binding exposes.

use vstd::prelude::*;

use crate::ring::extend_model;
use crate::ring::push_model;
use crate::ring::RingBuffer;
use crate::ring::RingBufferError;

verus! {

/// A circular buffer of `i64` samples: up to `capacity` of the most recent
/// pushes, oldest first.
pub struct RingBufferI64 {
    inner: RingBuffer<i64>,
}

impl View for RingBufferI64 {
    type V = Seq<i64>;

    /// The logical contents, oldest first.
    closed spec fn view(&self) -> Seq<i64> {
        self.inner@
    }
}

impl RingBufferI64 {
    /// Well-formedness of the underlying buffer.
    pub closed spec fn wf(&self) -> bool {
        self.inner.wf()
    }

    /// The fixed capacity, as a mathematical count.
    pub closed spec fn cap(&self) -> nat {
        self.inner.cap()
    }

    /// Builds an empty buffer of the requested capacity, its storage
    /// zero-initialized; a capacity of zero is rejected.
    pub fn new(capacity: usize) -> (result: Result<Self, RingBufferError>)
        ensures
            capacity == 0 ==> (result matches Err(e) && e == RingBufferError::InvalidCapacity),
            capacity > 0 ==> (result matches Ok(buffer) && buffer.wf() && buffer.cap() == capacity
                && buffer@ == Seq::<i64>::empty()),
    {
        match RingBuffer::new(capacity, 0i64) {
            Ok(inner) => Ok(RingBufferI64 { inner }),
            Err(e) => Err(e),
        }
    }

    /// Appends `value`, evicting the oldest element when already full.
    pub fn push(&mut self, value: i64)
        requires
            old(self).wf(),
        ensures
            final(self).wf(),
            final(self).cap() == old(self).cap(),
            final(self)@ == push_model(old(self)@, old(self).cap(), value),
    {
        self.inner.push(value);
    }

    /// Pushes every element of `values` in order, evictions included.
    pub fn extend(&mut self, values: Vec<i64>)
        requires
            old(self).wf(),
        ensures
            final(self).wf(),
            final(self).cap() == old(self).cap(),
            final(self)@ == extend_model(old(self)@, old(self).cap(), values@),
    {
        self.inner.extend_from_slice(values.as_slice());
    }

    /// Forgets all contents; the capacity is unchanged.
    pub fn clear(&mut self)
        requires
            old(self).wf(),
        ensures
            final(self).wf(),
            final(self).cap() == old(self).cap(),
            final(self)@ == Seq::<i64>::empty(),
    {
        self.inner.clear();
    }

    /// The number of currently valid elements.
    pub fn py_len(&self) -> (count: usize)
        requires
            self.wf(),
        ensures
            count == self@.len(),
    {
        self.inner.len()
    }

    /// The fixed capacity chosen at construction.
    pub fn capacity(&self) -> (c: usize)
        requires
            self.wf(),
        ensures
            c == self.cap(),
    {
        self.inner.capacity()
    }

    /// Whether every further push will evict the oldest element.
    pub fn is_full(&self) -> (full: bool)
        requires
            self.wf(),
        ensures
            full <==> self@.len() == self.cap(),
    {
        self.inner.is_full()
    }

    /// A freshly allocated copy of the contents, oldest first.
    pub fn snapshot(&self) -> (out: Vec<i64>)
        requires
            self.wf(),
        ensures
            out@ == self@,
    {
        self.inner.snapshot_vec()
    }

    /// Convenience alias for `snapshot`: the same ordered copy.
    pub fn iter(&self) -> (out: Vec<i64>)
        requires
            self.wf(),
        ensures
            out@ == self@,
    {
        self.inner.snapshot_vec()
    }
}

} // verus!
