use vstd::prelude::*;

use crate::error::StreamError;
use crate::sink::{sink_data, ChunkSink};

verus! {

broadcast use Seq::lemma_flatten_push;

/// A size-coalescing layer in front of a sink: small chunks are batched
/// in an internal buffer of fixed capacity and forwarded as one larger
/// chunk, so the sink downstream sees few, large writes. A chunk at
/// least as large as the capacity is forwarded directly; everything
/// buffered is forwarded before it so order is preserved.
pub struct CoalescingBuffer<S: ChunkSink> {
    inner: S,
    buffer: Vec<u8>,
    capacity: usize,
    accepted: Ghost<Seq<Seq<u8>>>,
}

impl<S: ChunkSink> CoalescingBuffer<S> {
    /// The sink this layer forwards to, in its current state.
    pub closed spec fn inner_sink(&self) -> S {
        self.inner
    }

    /// Bytes accepted but still held back, waiting to be batched.
    pub closed spec fn buffered(&self) -> Seq<u8> {
        self.buffer@
    }

    pub closed spec fn spec_capacity(&self) -> int {
        self.capacity as int
    }

    /// Construct with batch size `capacity` in front of the fresh sink
    /// `inner`.
    pub fn with_capacity(capacity: usize, inner: S) -> (r: CoalescingBuffer<S>)
        requires
            capacity >= 1,
            inner.wf(),
            !inner.finished(),
            inner.chunks() == Seq::<Seq<u8>>::empty(),
        ensures
            r.wf(),
            !r.finished(),
            r.chunks() == Seq::<Seq<u8>>::empty(),
            r.inner_sink() == inner,
            r.buffered() == Seq::<u8>::empty(),
            r.spec_capacity() == capacity,
    {
        let r = CoalescingBuffer {
            inner,
            buffer: Vec::with_capacity(capacity),
            capacity,
            accepted: Ghost(Seq::empty()),
        };
        proof {
            assert(sink_data(&r.inner) + r.buffer@ =~= r.accepted@.flatten());
        }
        r
    }
}

impl<S: ChunkSink> ChunkSink for CoalescingBuffer<S> {
    closed spec fn chunks(&self) -> Seq<Seq<u8>> {
        self.accepted@
    }

    closed spec fn wf(&self) -> bool {
        &&& self.inner.wf()
        &&& !self.inner.finished()
        &&& 1 <= self.capacity
        &&& self.buffer@.len() <= self.capacity
        &&& sink_data(&self.inner) + self.buffer@ == self.accepted@.flatten()
    }

    closed spec fn finished(&self) -> bool {
        self.inner.finished()
    }

    fn accept_chunk(&mut self, chunk: &[u8]) -> (r: Result<(), StreamError>) {
        if chunk.len() == 0 {
            return Ok(());
        }
        if chunk.len() > self.capacity - self.buffer.len() && self.buffer.len() > 0 {
            // the incoming chunk does not fit: forward the batch first
            let res = self.inner.accept_chunk(self.buffer.as_slice());
            match res {
                Ok(()) => {
                    proof {
                        assert(sink_data(&self.inner) =~= sink_data(&old(self).inner) + old(
                            self,
                        ).buffer@);
                    }
                    self.buffer.clear();
                },
                Err(e) => {
                    return Err(e);
                },
            }
        }
        if chunk.len() >= self.capacity {
            // too large to batch: forward it directly, in order
            let res = self.inner.accept_chunk(chunk);
            match res {
                Ok(()) => {},
                Err(e) => {
                    return Err(e);
                },
            }
        } else {
            self.buffer.extend_from_slice(chunk);
        }
        proof {
            self.accepted@ = self.accepted@.push(chunk@);
            assert(sink_data(&self.inner) + self.buffer@ =~= self.accepted@.flatten());
        }
        Ok(())
    }

    fn finish_sink(&mut self) -> (r: Result<(), StreamError>) {
        if self.buffer.len() > 0 {
            let res = self.inner.accept_chunk(self.buffer.as_slice());
            match res {
                Ok(()) => {
                    self.buffer.clear();
                },
                Err(e) => {
                    return Err(e);
                },
            }
        }
        self.inner.finish_sink()
    }
}

/// The coalescing layer loses nothing: in any well-formed state, the
/// bytes already forwarded to the sink downstream followed by the bytes
/// still batched are exactly the bytes accepted, in order.
pub proof fn lemma_coalesce_invariant<S: ChunkSink>(c: &CoalescingBuffer<S>)
    requires
        c.wf(),
    ensures
        sink_data(&c.inner_sink()) + c.buffered() == sink_data(c),
        c.inner_sink().wf(),
        !c.inner_sink().finished(),
        c.buffered().len() <= c.spec_capacity(),
{
}

} // verus!
