//! Bounded sample queue with drop-oldest overflow and all-or-nothing reads.
//!
//! One buffer decouples the capture thread from the conversion loop, a
//! second decouples the conversion loop from the playback thread.  Samples
//! are 32-bit words (the bit patterns of the audio subsystem's normalized
//! samples); the buffer itself gives no meaning to their values.

use vstd::prelude::*;

verus! {

/// Bounded FIFO queue of sample words.  `capacity` is fixed at
/// construction; when a push would exceed it, the oldest samples are
/// discarded first, so the newest audio always wins.
pub struct RingBuffer {
    data: Vec<u32>,
    capacity: usize,
}

/// Contents of a buffer of capacity `cap` holding `buf` after `data` is
/// appended: the newest `cap` samples of `buf + data` (all of them when
/// they fit).
pub open spec fn push_result(buf: Seq<u32>, data: Seq<u32>, cap: nat) -> Seq<u32> {
    let total = buf + data;
    if total.len() <= cap {
        total
    } else {
        total.skip(total.len() - cap)
    }
}

impl View for RingBuffer {
    type V = Seq<u32>;

    closed spec fn view(&self) -> Seq<u32> {
        self.data@
    }
}

impl RingBuffer {
    /// The fixed capacity, in samples.
    pub closed spec fn cap(&self) -> nat {
        self.capacity as nat
    }

    /// Well-formedness: the buffer never holds more samples than its
    /// capacity.  `new` establishes it and every method preserves it;
    /// `push` even restores it unconditionally.
    pub open spec fn wf(&self) -> bool {
        self@.len() <= self.cap()
    }

    /// A new, empty buffer that will never hold more than `capacity` samples.
    pub fn new(capacity: usize) -> (r: RingBuffer)
        ensures
            r@ == Seq::<u32>::empty(),
            r.cap() == capacity,
            r.wf(),
    {
        RingBuffer { data: Vec::new(), capacity }
    }

    /// The capacity the buffer was constructed with.
    pub fn capacity(&self) -> (c: usize)
        ensures
            c == self.cap(),
    {
        self.capacity
    }

    /// Number of samples currently buffered.  Under concurrent use the
    /// answer is advisory: it may be stale as soon as it is returned.
    pub fn len(&self) -> (n: usize)
        ensures
            n == self@.len(),
    {
        self.data.len()
    }

    /// Drops every buffered sample.
    pub fn clear(&mut self)
        ensures
            final(self)@ == Seq::<u32>::empty(),
            final(self).cap() == old(self).cap(),
            final(self).wf(),
    {
        self.data.clear();
    }

    /// Appends `samples` at the back.  If the result would exceed the
    /// capacity, the oldest samples are discarded first, so the buffer is
    /// left holding the newest `cap` samples of the old contents followed
    /// by `samples`.  Never fails and never blocks the caller on space.
    pub fn push(&mut self, samples: &[u32])
        ensures
            final(self)@ == push_result(old(self)@, samples@, old(self).cap()),
            final(self).cap() == old(self).cap(),
            final(self).wf(),
    {
        if samples.len() >= self.capacity {
            // The new samples alone fill the buffer: only their tail stays.
            self.data.clear();
            let start = samples.len() - self.capacity;
            let mut i = start;
            while i < samples.len()
                invariant
                    start <= i <= samples@.len(),
                    start == samples@.len() - self.capacity,
                    self.data@ == samples@.subrange(start as int, i as int),
                    self.capacity == old(self).capacity,
                decreases samples@.len() - i,
            {
                self.data.push(samples[i]);
                i = i + 1;
            }
            proof {
                assert(self.data@ =~= push_result(old(self)@, samples@, old(self).cap()));
            }
        } else {
            if self.data.len() > self.capacity - samples.len() {
                // Evict the oldest samples to make room for all of `samples`.
                let overflow = self.data.len() - (self.capacity - samples.len());
                let kept = self.data.split_off(overflow);
                self.data = kept;
            }
            let ghost evicted = self.data@;
            let mut i: usize = 0;
            while i < samples.len()
                invariant
                    0 <= i <= samples@.len(),
                    self.data@ == evicted + samples@.subrange(0, i as int),
                    self.capacity == old(self).capacity,
                decreases samples@.len() - i,
            {
                self.data.push(samples[i]);
                i = i + 1;
            }
            proof {
                assert(self.data@ =~= push_result(old(self)@, samples@, old(self).cap()));
            }
        }
    }

    /// All-or-nothing read.  When at least `count` samples are buffered,
    /// removes and returns the oldest `count` in FIFO order; otherwise
    /// returns an empty vector and leaves the buffer unchanged.
    pub fn take(&mut self, count: usize) -> (out: Vec<u32>)
        ensures
            old(self)@.len() >= count ==> out@ == old(self)@.take(count as int)
                && final(self)@ == old(self)@.skip(count as int),
            old(self)@.len() < count ==> out@ == Seq::<u32>::empty()
                && final(self)@ == old(self)@,
            final(self).cap() == old(self).cap(),
            old(self).wf() ==> final(self).wf(),
    {
        if count <= self.data.len() {
            let mut front = self.data.split_off(count);
            core::mem::swap(&mut self.data, &mut front);
            proof {
                assert(front@ =~= old(self)@.take(count as int));
                assert(self.data@ =~= old(self)@.skip(count as int));
            }
            front
        } else {
            Vec::new()
        }
    }
}

/// One buffer operation, as a producer or consumer would issue it.  The
/// buffer's lock makes every executed operation atomic, so any concurrent
/// history is some sequence of these.
pub enum BufferOp {
    Push(Seq<u32>),
    Take(nat),
}

/// The contents after one operation, mirroring the contracts of
/// `RingBuffer::push` and `RingBuffer::take`.
pub open spec fn apply_op(buf: Seq<u32>, op: BufferOp, cap: nat) -> Seq<u32> {
    match op {
        BufferOp::Push(data) => push_result(buf, data, cap),
        BufferOp::Take(n) => if buf.len() >= n {
            buf.skip(n as int)
        } else {
            buf
        },
    }
}

/// The contents after a whole sequence of operations, applied in order.
pub open spec fn apply_ops(buf: Seq<u32>, ops: Seq<BufferOp>, cap: nat) -> Seq<u32>
    decreases ops.len(),
{
    if ops.len() == 0 {
        buf
    } else {
        apply_ops(apply_op(buf, ops[0], cap), ops.skip(1), cap)
    }
}

/// Law: under every sequence of pushes and takes — hence under every
/// serialized interleaving of one producer and one consumer — the number
/// of buffered samples never exceeds the capacity (and, being a sequence
/// length, is never negative), and the contents after the history are
/// exactly what applying the operations one by one gives: no sample is
/// lost or duplicated beyond the documented drop-oldest eviction.
pub proof fn lemma_ops_len_bounded(buf: Seq<u32>, ops: Seq<BufferOp>, cap: nat)
    requires
        buf.len() <= cap,
    ensures
        apply_ops(buf, ops, cap).len() <= cap,
    decreases ops.len(),
{
    if ops.len() > 0 {
        lemma_ops_len_bounded(apply_op(buf, ops[0], cap), ops.skip(1), cap);
    }
}

/// Law: a push that does not overflow, followed immediately by a take of
/// everything buffered, hands the pushed samples back exactly and in
/// order; from an empty buffer, a take of the pushed size returns exactly
/// the pushed samples and leaves the buffer empty.
pub proof fn lemma_push_take_round_trip(buf: Seq<u32>, data: Seq<u32>, cap: nat)
    requires
        buf.len() + data.len() <= cap,
    ensures
        push_result(buf, data, cap).skip(buf.len() as int) == data,
        buf.len() == 0 ==> push_result(buf, data, cap).take(data.len() as int) == data
            && push_result(buf, data, cap).skip(data.len() as int) == Seq::<u32>::empty(),
{
    assert(push_result(buf, data, cap).skip(buf.len() as int) =~= data);
    if buf.len() == 0 {
        assert(push_result(buf, data, cap).take(data.len() as int) =~= data);
        assert(push_result(buf, data, cap).skip(data.len() as int) =~= Seq::<u32>::empty());
    }
}

/// Law: a single push of at least `cap` samples leaves the buffer holding
/// exactly the newest `cap` of the pushed samples, whatever it held before.
pub proof fn lemma_push_overflow_keeps_newest(buf: Seq<u32>, data: Seq<u32>, cap: nat)
    requires
        buf.len() <= cap,
        data.len() >= cap,
    ensures
        push_result(buf, data, cap) == data.skip(data.len() - cap),
{
    assert(push_result(buf, data, cap) =~= data.skip(data.len() - cap));
}

} // verus!
