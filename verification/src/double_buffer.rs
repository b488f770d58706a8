use vstd::prelude::*;

verus! {

/// The rendezvous state of the double buffer: two fixed-capacity byte
/// buffers, one writable by the producer (`front`) and one held by the
/// drain worker (`back`), exchanged wholesale at swap points.
///
/// The state machine enforces the pipeline's depth-1 discipline: a new
/// hand-off may only happen once the previously handed-over buffer has
/// been fully drained, so no buffer is ever read and written at the same
/// time. Byte order is preserved: everything ever appended is exactly
/// the drained bytes, then the undrained back buffer (if any), then the
/// bytes still sitting in the front buffer.
pub struct BufferExchange {
    front: Vec<u8>,
    back: Vec<u8>,
    capacity: usize,
    back_filled: bool,
    drained: Ghost<Seq<u8>>,
}

impl BufferExchange {
    /// The fixed chunk capacity both buffers were created with.
    pub closed spec fn spec_capacity(&self) -> int {
        self.capacity as int
    }

    /// Bytes currently in the producer-side buffer.
    pub closed spec fn front_bytes(&self) -> Seq<u8> {
        self.front@
    }

    /// Bytes in the worker-side buffer, valid only while it is filled.
    pub closed spec fn back_bytes(&self) -> Seq<u8> {
        self.back@
    }

    /// Whether the worker side holds a handed-over, not yet drained buffer.
    pub closed spec fn is_back_filled(&self) -> bool {
        self.back_filled
    }

    /// Concatenation of every chunk the worker has fully drained.
    pub closed spec fn drained_bytes(&self) -> Seq<u8> {
        self.drained@
    }

    /// Every byte ever appended, in order: drained first, then the chunk
    /// awaiting the worker, then the partial front buffer.
    pub open spec fn appended_bytes(&self) -> Seq<u8> {
        self.drained_bytes() + (if self.is_back_filled() {
            self.back_bytes()
        } else {
            Seq::<u8>::empty()
        }) + self.front_bytes()
    }

    pub open spec fn wf(&self) -> bool {
        &&& 1 <= self.spec_capacity()
        &&& self.front_bytes().len() <= self.spec_capacity()
        &&& self.back_bytes().len() <= self.spec_capacity()
        &&& (!self.is_back_filled() ==> self.back_bytes().len() == 0)
    }

    /// Construct with two empty buffers of capacity `capacity`. The
    /// buffers are allocated once here and reused for the life of the
    /// exchange.
    pub fn new(capacity: usize) -> (r: BufferExchange)
        requires
            capacity >= 1,
        ensures
            r.wf(),
            r.spec_capacity() == capacity,
            r.front_bytes() == Seq::<u8>::empty(),
            !r.is_back_filled(),
            r.drained_bytes() == Seq::<u8>::empty(),
    {
        BufferExchange {
            front: Vec::with_capacity(capacity),
            back: Vec::with_capacity(capacity),
            capacity,
            back_filled: false,
            drained: Ghost(Seq::empty()),
        }
    }

    pub fn capacity(&self) -> (r: usize)
        ensures
            r == self.spec_capacity(),
    {
        self.capacity
    }

    /// Current length of the producer-side buffer.
    pub fn len(&self) -> (r: usize)
        ensures
            r == self.front_bytes().len(),
    {
        self.front.len()
    }

    /// Append as many of `bytes` as fit in the front buffer's remaining
    /// capacity; the count actually consumed is returned and the caller
    /// retries with the remainder.
    pub fn append(&mut self, bytes: &[u8]) -> (n: usize)
        requires
            old(self).wf(),
        ensures
            final(self).wf(),
            n as int == (if bytes@.len() <= old(self).spec_capacity() - old(
                self,
            ).front_bytes().len() {
                bytes@.len() as int
            } else {
                old(self).spec_capacity() - old(self).front_bytes().len()
            }),
            final(self).front_bytes() == old(self).front_bytes() + bytes@.take(n as int),
            final(self).spec_capacity() == old(self).spec_capacity(),
            final(self).back_bytes() == old(self).back_bytes(),
            final(self).is_back_filled() == old(self).is_back_filled(),
            final(self).drained_bytes() == old(self).drained_bytes(),
    {
        let remaining = self.capacity - self.front.len();
        let n = if bytes.len() <= remaining {
            bytes.len()
        } else {
            remaining
        };
        self.front.extend_from_slice(&bytes[0..n]);
        n
    }

    /// Whether the producer side may hand its buffer over: the worker
    /// must have drained the previous one (pipeline depth 1).
    pub fn can_hand_off(&self) -> (r: bool)
        ensures
            r == !self.is_back_filled(),
    {
        !self.back_filled
    }

    /// Hand the front buffer to the worker side and take back the other,
    /// already drained (hence empty) buffer. Ownership of the bytes moves
    /// atomically; no copy is made.
    pub fn hand_off(&mut self)
        requires
            old(self).wf(),
            !old(self).is_back_filled(),
        ensures
            final(self).wf(),
            final(self).is_back_filled(),
            final(self).back_bytes() == old(self).front_bytes(),
            final(self).front_bytes() == Seq::<u8>::empty(),
            final(self).drained_bytes() == old(self).drained_bytes(),
            final(self).spec_capacity() == old(self).spec_capacity(),
            final(self).appended_bytes() == old(self).appended_bytes(),
    {
        core::mem::swap(&mut self.front, &mut self.back);
        self.back_filled = true;
        proof {
            assert(self.appended_bytes() =~= old(self).appended_bytes());
        }
    }

    /// The chunk currently held by the worker side.
    pub fn back_chunk(&self) -> (r: &Vec<u8>)
        requires
            self.is_back_filled(),
        ensures
            r@ == self.back_bytes(),
    {
        &self.back
    }

    /// The worker has written the whole back buffer to its destination:
    /// record the bytes as drained and clear the buffer for reuse.
    pub fn drain_done(&mut self)
        requires
            old(self).wf(),
            old(self).is_back_filled(),
        ensures
            final(self).wf(),
            !final(self).is_back_filled(),
            final(self).drained_bytes() == old(self).drained_bytes() + old(self).back_bytes(),
            final(self).front_bytes() == old(self).front_bytes(),
            final(self).spec_capacity() == old(self).spec_capacity(),
            final(self).appended_bytes() == old(self).appended_bytes(),
    {
        let ghost chunk = self.back@;
        self.back.clear();
        self.back_filled = false;
        proof {
            self.drained@ = self.drained@ + chunk;
            assert(self.appended_bytes() =~= old(self).appended_bytes());
        }
    }

    /// The worker has gone away without draining: the back buffer's bytes
    /// are discarded, not recorded as drained.
    pub fn discard_back(&mut self)
        requires
            old(self).wf(),
            old(self).is_back_filled(),
        ensures
            final(self).wf(),
            !final(self).is_back_filled(),
            final(self).drained_bytes() == old(self).drained_bytes(),
            final(self).front_bytes() == old(self).front_bytes(),
            final(self).spec_capacity() == old(self).spec_capacity(),
    {
        self.back.clear();
        self.back_filled = false;
    }

    /// Invariant 3 of the exchange: however much has been appended, the
    /// bytes not yet drained all sit in the two buffers, so at most two
    /// chunks' worth of data is ever buffered here.
    pub proof fn lemma_bounded_buffering(&self)
        requires
            self.wf(),
        ensures
            self.appended_bytes().len() - self.drained_bytes().len() <= 2 * self.spec_capacity(),
    {
    }
}

} // verus!
