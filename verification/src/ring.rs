//! The generic circular buffer: capacity management, wraparound indexing and
//! order-preserving snapshot extraction, together with the sequence-level
//! model of pushing and the laws that relate them.

use vstd::prelude::*;

verus! {

/// The one construction-time failure: a buffer with no room for any element.
#[derive(Clone, Copy, Debug, PartialEq, Eq)]
pub enum RingBufferError {
    InvalidCapacity,
}

/// A fixed-capacity buffer over copyable elements. Once `len` reaches
/// `capacity`, every further push overwrites the oldest element; `cursor` is
/// the slot the next write will take.
pub struct RingBuffer<T> {
    data: Vec<T>,
    capacity: usize,
    len: usize,
    cursor: usize,
}

/// One push onto the logical contents of a buffer of capacity `cap`: the value
/// is appended, and the oldest element is evicted when the buffer is full.
pub open spec fn push_model<T>(s: Seq<T>, cap: nat, v: T) -> Seq<T> {
    if s.len() < cap {
        s.push(v)
    } else {
        s.drop_first().push(v)
    }
}

/// The contents after pushing every element of `vs` in order, one at a time.
pub open spec fn extend_model<T>(s: Seq<T>, cap: nat, vs: Seq<T>) -> Seq<T>
    decreases vs.len(),
{
    if vs.len() == 0 {
        s
    } else {
        push_model(extend_model(s, cap, vs.drop_last()), cap, vs.last())
    }
}

/// The suffix of `s` that a buffer of capacity `cap` retains: all of `s` when
/// it fits, otherwise the last `cap` elements.
pub open spec fn retained<T>(s: Seq<T>, cap: nat) -> Seq<T> {
    if s.len() <= cap {
        s
    } else {
        s.skip(s.len() - cap)
    }
}

/// One modelled push carries the retained suffix of `s` to the retained
/// suffix of `s.push(v)`.
proof fn lemma_push_model_retained<T>(s: Seq<T>, cap: nat, v: T)
    requires
        cap >= 1,
    ensures
        push_model(retained(s, cap), cap, v) == retained(s.push(v), cap),
{
    assert(push_model(retained(s, cap), cap, v) =~= retained(s.push(v), cap));
}

/// Pushing the elements of `vs` onto contents `s` retains exactly the last
/// `cap` elements of `s + vs` (all of them when they fit), in order.
pub proof fn lemma_extend_model_retained<T>(s: Seq<T>, cap: nat, vs: Seq<T>)
    requires
        cap >= 1,
        s.len() <= cap,
    ensures
        extend_model(s, cap, vs) == retained(s + vs, cap),
    decreases vs.len(),
{
    if vs.len() == 0 {
        assert(s + vs =~= s);
    } else {
        lemma_extend_model_retained(s, cap, vs.drop_last());
        lemma_push_model_retained(s + vs.drop_last(), cap, vs.last());
        assert((s + vs.drop_last()).push(vs.last()) =~= s + vs);
    }
}

/// With `vs.len() <= cap`, pushing `vs` into a fresh buffer of capacity `cap`
/// retains every pushed value, in push order.
pub proof fn lemma_pushes_within_capacity<T>(cap: nat, vs: Seq<T>)
    requires
        cap >= 1,
        vs.len() <= cap,
    ensures
        extend_model(Seq::<T>::empty(), cap, vs) == vs,
{
    lemma_extend_model_retained(Seq::<T>::empty(), cap, vs);
    assert(Seq::<T>::empty() + vs =~= vs);
}

/// With `vs.len() > cap`, pushing `vs` into a fresh buffer of capacity `cap`
/// retains exactly the last `cap` pushed values, in push order.
pub proof fn lemma_pushes_beyond_capacity<T>(cap: nat, vs: Seq<T>)
    requires
        cap >= 1,
        vs.len() > cap,
    ensures
        extend_model(Seq::<T>::empty(), cap, vs) == vs.skip(vs.len() - cap),
        extend_model(Seq::<T>::empty(), cap, vs).len() == cap,
{
    lemma_extend_model_retained(Seq::<T>::empty(), cap, vs);
    assert(Seq::<T>::empty() + vs =~= vs);
}

/// Extending by a non-empty `vs` is one push of its first element followed by
/// extending with the rest: a batch is nothing but its individual pushes.
pub proof fn lemma_extend_model_unfold_first<T>(s: Seq<T>, cap: nat, vs: Seq<T>)
    requires
        vs.len() > 0,
    ensures
        extend_model(s, cap, vs) == extend_model(push_model(s, cap, vs.first()), cap, vs.drop_first()),
    decreases vs.len(),
{
    if vs.len() == 1 {
        assert(vs.drop_last() =~= Seq::<T>::empty());
        assert(vs.drop_first() =~= Seq::<T>::empty());
        assert(vs.last() == vs.first());
        assert(extend_model(s, cap, vs.drop_last()) == s);
    } else {
        let pushed = push_model(s, cap, vs.first());
        lemma_extend_model_unfold_first(s, cap, vs.drop_last());
        assert(vs.drop_last().first() == vs.first());
        assert(vs.drop_first().drop_last() =~= vs.drop_last().drop_first());
        assert(vs.drop_first().last() == vs.last());
        assert(extend_model(pushed, cap, vs.drop_first())
            == push_model(extend_model(pushed, cap, vs.drop_first().drop_last()), cap, vs.last()));
    }
}

impl<T: Copy> View for RingBuffer<T> {
    type V = Seq<T>;

    /// The logical contents, oldest first. Before the first wraparound the
    /// oldest element sits at slot 0; once full, it sits at `cursor`.
    closed spec fn view(&self) -> Seq<T> {
        if self.len == self.capacity {
            self.data@.subrange(self.cursor as int, self.capacity as int)
                + self.data@.subrange(0, self.cursor as int)
        } else {
            self.data@.subrange(0, self.len as int)
        }
    }
}

impl<T: Copy> RingBuffer<T> {
    /// Well-formedness: the storage never resizes, the count never exceeds the
    /// capacity, and until the buffer first fills the write cursor trails the
    /// count exactly.
    pub closed spec fn wf(&self) -> bool {
        &&& 0 < self.capacity
        &&& self.data@.len() == self.capacity
        &&& self.len <= self.capacity
        &&& self.cursor < self.capacity
        &&& (self.len < self.capacity ==> self.cursor == self.len)
    }

    /// The fixed capacity, as a mathematical count.
    pub closed spec fn cap(&self) -> nat {
        self.capacity as nat
    }

    /// Builds an empty buffer of the requested capacity, every slot holding
    /// `fill` until overwritten; a capacity of zero is rejected.
    pub fn new(capacity: usize, fill: T) -> (result: Result<Self, RingBufferError>)
        ensures
            capacity == 0 ==> (result matches Err(e) && e == RingBufferError::InvalidCapacity),
            capacity > 0 ==> (result matches Ok(buffer) && buffer.wf() && buffer.cap() == capacity
                && buffer@ == Seq::<T>::empty()),
    {
        if capacity == 0 {
            return Err(RingBufferError::InvalidCapacity);
        }
        let mut data: Vec<T> = Vec::with_capacity(capacity);
        while data.len() < capacity
            invariant
                data@.len() <= capacity,
            decreases capacity - data@.len(),
        {
            data.push(fill);
        }
        let buffer = RingBuffer { data, capacity, len: 0, cursor: 0 };
        proof {
            assert(buffer@ =~= Seq::<T>::empty());
        }
        Ok(buffer)
    }

    /// Writes `value` over the slot at the cursor, advances the cursor with
    /// wraparound, and grows the count until it saturates at the capacity.
    pub fn push(&mut self, value: T)
        requires
            old(self).wf(),
        ensures
            final(self).wf(),
            final(self).cap() == old(self).cap(),
            final(self)@ == push_model(old(self)@, old(self).cap(), value),
    {
        self.data.set(self.cursor, value);
        self.cursor = self.cursor + 1;
        if self.cursor == self.capacity {
            self.cursor = 0;
        }
        if self.len < self.capacity {
            self.len = self.len + 1;
        }
        proof {
            if old(self).len < old(self).capacity {
                assert(self@ =~= old(self)@.push(value));
            } else {
                assert(self@ =~= old(self)@.drop_first().push(value));
            }
        }
    }

    /// Pushes every element of `values` in order; equivalent to one `push`
    /// per element, evictions included.
    pub fn extend_from_slice(&mut self, values: &[T])
        requires
            old(self).wf(),
        ensures
            final(self).wf(),
            final(self).cap() == old(self).cap(),
            final(self)@ == extend_model(old(self)@, old(self).cap(), values@),
    {
        let mut index: usize = 0;
        while index < values.len()
            invariant
                self.wf(),
                self.cap() == old(self).cap(),
                index <= values@.len(),
                self@ == extend_model(old(self)@, old(self).cap(), values@.take(index as int)),
            decreases values@.len() - index,
        {
            self.push(values[index]);
            proof {
                assert(values@.take(index as int + 1).drop_last() =~= values@.take(index as int));
                assert(values@.take(index as int + 1).last() == values@[index as int]);
            }
            index = index + 1;
        }
        proof {
            assert(values@.take(values@.len() as int) =~= values@);
        }
    }

    /// Forgets all contents; the storage keeps its size and its stale values.
    pub fn clear(&mut self)
        requires
            old(self).wf(),
        ensures
            final(self).wf(),
            final(self).cap() == old(self).cap(),
            final(self)@ == Seq::<T>::empty(),
    {
        self.len = 0;
        self.cursor = 0;
        proof {
            assert(self@ =~= Seq::<T>::empty());
        }
    }

    /// The number of currently valid elements.
    pub fn len(&self) -> (count: usize)
        requires
            self.wf(),
        ensures
            count == self@.len(),
    {
        self.len
    }

    /// Whether every further push will evict the oldest element.
    pub fn is_full(&self) -> (full: bool)
        requires
            self.wf(),
        ensures
            full <==> self@.len() == self.cap(),
    {
        self.len == self.capacity
    }

    /// The fixed capacity chosen at construction.
    pub fn capacity(&self) -> (c: usize)
        ensures
            c == self.cap(),
    {
        self.capacity
    }

    /// A freshly allocated copy of the contents, oldest first, independent of
    /// the physical wraparound position.
    pub fn snapshot_vec(&self) -> (out: Vec<T>)
        requires
            self.wf(),
        ensures
            out@ == self@,
    {
        let mut out: Vec<T> = Vec::with_capacity(self.len);
        if self.len == 0 {
            return out;
        }
        let start: usize = if self.len == self.capacity {
            self.cursor
        } else {
            0
        };
        let mut position: usize = start;
        let mut index: usize = 0;
        while index < self.len
            invariant
                self.wf(),
                0 < self.len,
                index <= self.len,
                start == (if self.len == self.capacity { self.cursor } else { 0usize }),
                position < self.capacity,
                position as int == (if start + index < self.capacity {
                    start + index
                } else {
                    start + index - self.capacity
                }),
                out@ == self@.subrange(0, index as int),
            decreases self.len - index,
        {
            out.push(self.data[position]);
            proof {
                assert(self@[index as int] == self.data@[position as int]);
                assert(out@ =~= self@.subrange(0, index as int + 1));
            }
            position = position + 1;
            if position == self.capacity {
                position = 0;
            }
            index = index + 1;
        }
        proof {
            assert(self@.subrange(0, self@.len() as int) =~= self@);
        }
        out
    }
}

} // verus!
