use vstd::prelude::*;

use crate::double_buffer::BufferExchange;
use crate::error::StreamError;
use crate::sink::ChunkSink;

verus! {

broadcast use Seq::lemma_flatten_push;

/// The delivered history after a forced swap: a non-empty partial chunk
/// is handed over as one more chunk, an empty buffer adds nothing.
pub open spec fn flushed_chunks(delivered: Seq<Seq<u8>>, pending: Seq<u8>) -> Seq<Seq<u8>> {
    if pending.len() == 0 {
        delivered
    } else {
        delivered.push(pending)
    }
}

/// A coalescing writer over an arbitrary, possibly slow destination sink.
///
/// Bytes written here accumulate in a fixed-capacity chunk buffer; a
/// buffer that becomes exactly full is swapped out through the
/// [`BufferExchange`] and its contents are delivered to the destination
/// as one chunk, so the destination sees few, large writes regardless of
/// how small the caller's writes are. `flush` forces a swap at any fill
/// level; `close` flushes, then runs the destination's single final
/// flush.
///
/// Once a delivery fails the original cause is retained and every later
/// write or flush fails with it; the destination is never written again.
///
/// Delivery runs inline at the swap points, on the writer's own thread:
/// serialization and compression share that thread, and the decoupling
/// from network delivery happens at the bounded queue further down. A
/// write that stays within the current buffer makes no destination call
/// at all and therefore always succeeds.
pub struct RemoteBufWriter<S: ChunkSink> {
    exchange: BufferExchange,
    sink: S,
    failed: Option<StreamError>,
}

impl<S: ChunkSink> RemoteBufWriter<S> {
    /// The destination sink in its current state.
    pub closed spec fn destination(&self) -> S {
        self.sink
    }

    /// Chunks delivered to the destination so far, oldest first.
    pub open spec fn delivered_chunks(&self) -> Seq<Seq<u8>> {
        self.destination().chunks()
    }

    /// All bytes delivered to the destination so far, in order.
    pub open spec fn delivered_bytes(&self) -> Seq<u8> {
        self.delivered_chunks().flatten()
    }

    /// Bytes accepted from the caller but not yet handed to the
    /// destination.
    pub closed spec fn pending(&self) -> Seq<u8> {
        self.exchange.front_bytes()
    }

    /// The chunk capacity the writer was constructed with.
    pub closed spec fn spec_capacity(&self) -> int {
        self.exchange.spec_capacity()
    }

    /// The retained cause of the first failed delivery, if any.
    pub closed spec fn failure(&self) -> Option<StreamError> {
        self.failed
    }

    pub open spec fn is_failed(&self) -> bool {
        self.failure() is Some
    }

    /// Every byte ever accepted from the caller, in order.
    pub closed spec fn accepted_bytes(&self) -> Seq<u8> {
        self.exchange.appended_bytes()
    }

    /// Every delivered chunk is non-empty and no larger than the chunk
    /// capacity.
    pub open spec fn chunks_bounded(&self) -> bool {
        forall|i: int|
            0 <= i < self.delivered_chunks().len() ==> 0 < (
            #[trigger] self.delivered_chunks()[i]).len() <= self.spec_capacity()
    }

    /// Well-formedness at a swap point, where the chunk buffer may be
    /// exactly full.
    pub open spec fn pre_swap_wf(&self) -> bool {
        &&& self.inner_wf()
        &&& 1 <= self.spec_capacity()
        &&& self.pending().len() <= self.spec_capacity()
        &&& self.chunks_bounded()
        &&& (!self.is_failed() ==> {
            &&& self.destination().wf()
            &&& !self.destination().finished()
            &&& self.delivered_bytes() + self.pending() == self.accepted_bytes()
        })
    }

    /// Well-formedness between calls: a full buffer never survives a
    /// call, it is always swapped out at once.
    pub open spec fn wf(&self) -> bool {
        &&& self.pre_swap_wf()
        &&& self.pending().len() < self.spec_capacity()
    }

    /// The coupling between the exchange and the destination: between
    /// calls the worker side is always drained, and everything drained
    /// has reached the destination.
    pub closed spec fn inner_wf(&self) -> bool {
        &&& self.exchange.wf()
        &&& !self.exchange.is_back_filled()
        &&& (!self.is_failed() ==> self.sink.chunks().flatten() == self.exchange.drained_bytes())
    }

    /// Construct with two empty chunk buffers of capacity `capacity`,
    /// delivering to the fresh destination `writer`.
    pub fn with_capacity(capacity: usize, writer: S) -> (r: RemoteBufWriter<S>)
        requires
            capacity >= 1,
            writer.wf(),
            !writer.finished(),
            writer.chunks() == Seq::<Seq<u8>>::empty(),
        ensures
            r.wf(),
            r.spec_capacity() == capacity,
            r.delivered_chunks() == Seq::<Seq<u8>>::empty(),
            r.pending() == Seq::<u8>::empty(),
            !r.is_failed(),
            r.destination() == writer,
    {
        let r = RemoteBufWriter { exchange: BufferExchange::new(capacity), sink: writer, failed: None };
        proof {
            assert(r.delivered_bytes() + r.pending() =~= r.accepted_bytes());
        }
        r
    }

    /// The chunk capacity.
    pub fn capacity(&self) -> (r: usize)
        ensures
            r == self.spec_capacity(),
    {
        self.exchange.capacity()
    }

    /// Hand the full front buffer to the worker side, deliver it to the
    /// destination, and reclaim the drained buffer.
    fn swap_now(&mut self) -> (r: Result<(), StreamError>)
        requires
            old(self).pre_swap_wf(),
            !old(self).is_failed(),
        ensures
            final(self).wf(),
            final(self).spec_capacity() == old(self).spec_capacity(),
            final(self).pending() == Seq::<u8>::empty(),
            match r {
                Ok(()) => {
                    &&& !final(self).is_failed()
                    &&& final(self).delivered_chunks() == flushed_chunks(
                        old(self).delivered_chunks(),
                        old(self).pending(),
                    )
                },
                Err(e) => {
                    &&& final(self).failure() == Some(e)
                    &&& final(self).delivered_chunks() == old(self).delivered_chunks()
                },
            },
    {
        self.exchange.hand_off();
        let chunk = self.exchange.back_chunk();
        let res = self.sink.accept_chunk(chunk.as_slice());
        match res {
            Ok(()) => {
                self.exchange.drain_done();
                proof {
                    if old(self).pending().len() > 0 {
                        old(self).delivered_chunks().lemma_flatten_push(old(self).pending());
                    }
                    assert(self.delivered_bytes() + self.pending() =~= self.accepted_bytes());
                }
                Ok(())
            },
            Err(e) => {
                self.exchange.discard_back();
                self.failed = Some(e);
                Err(e)
            },
        }
    }

    /// Append up to the remaining chunk capacity, returning the count
    /// consumed; the caller retries with the remainder. A buffer that
    /// becomes exactly full triggers an automatic swap, with no explicit
    /// flush.
    pub fn write(&mut self, buf: &[u8]) -> (r: Result<usize, StreamError>)
        requires
            old(self).wf(),
        ensures
            final(self).wf(),
            final(self).spec_capacity() == old(self).spec_capacity(),
            (!old(self).is_failed() && old(self).pending().len() + buf@.len() < old(
                self,
            ).spec_capacity()) ==> r is Ok,
            match r {
                Ok(n) => {
                    &&& !old(self).is_failed()
                    &&& !final(self).is_failed()
                    &&& n as int == (if buf@.len() <= old(self).spec_capacity() - old(
                        self,
                    ).pending().len() {
                        buf@.len() as int
                    } else {
                        old(self).spec_capacity() - old(self).pending().len()
                    })
                    &&& (if old(self).pending().len() + n == old(self).spec_capacity() {
                        &&& final(self).delivered_chunks() == old(self).delivered_chunks().push(
                            old(self).pending() + buf@.take(n as int),
                        )
                        &&& final(self).pending() == Seq::<u8>::empty()
                    } else {
                        &&& final(self).delivered_chunks() == old(self).delivered_chunks()
                        &&& final(self).pending() == old(self).pending() + buf@.take(n as int)
                    })
                },
                Err(e) => {
                    &&& final(self).failure() == Some(e)
                    &&& final(self).delivered_chunks() == old(self).delivered_chunks()
                    &&& (old(self).is_failed() ==> Some(e) == old(self).failure() && final(self).pending() == old(self).pending())
                },
            },
    {
        if let Some(e) = self.failed {
            return Err(e);
        }
        let n = self.exchange.append(buf);
        proof {
            assert(self.delivered_bytes() + self.pending() =~= self.accepted_bytes());
        }
        if self.exchange.len() == self.exchange.capacity() {
            match self.swap_now() {
                Ok(()) => Ok(n),
                Err(e) => Err(e),
            }
        } else {
            Ok(n)
        }
    }

    /// Force a swap at the current fill level, guaranteeing that every
    /// byte accepted so far has been handed to the destination's write
    /// before returning. A swap that discovers an earlier failure (the
    /// worker is gone) returns the retained cause.
    pub fn swap_chunk(&mut self) -> (r: Result<(), StreamError>)
        requires
            old(self).wf(),
        ensures
            final(self).wf(),
            final(self).spec_capacity() == old(self).spec_capacity(),
            match r {
                Ok(()) => {
                    &&& !old(self).is_failed()
                    &&& !final(self).is_failed()
                    &&& final(self).delivered_chunks() == flushed_chunks(
                        old(self).delivered_chunks(),
                        old(self).pending(),
                    )
                    &&& final(self).pending() == Seq::<u8>::empty()
                    &&& final(self).delivered_bytes() == old(self).delivered_bytes() + old(
                        self,
                    ).pending()
                },
                Err(e) => {
                    &&& final(self).failure() == Some(e)
                    &&& final(self).delivered_chunks() == old(self).delivered_chunks()
                    &&& (old(self).is_failed() ==> Some(e) == old(self).failure() && final(self).pending() == old(self).pending())
                },
            },
    {
        if let Some(e) = self.failed {
            return Err(e);
        }
        let r = self.swap_now();
        proof {
            if r is Ok {
                if old(self).pending().len() > 0 {
                    old(self).delivered_chunks().lemma_flatten_push(old(self).pending());
                } else {
                    assert(old(self).delivered_bytes() + old(self).pending() =~= old(
                        self,
                    ).delivered_bytes());
                }
            }
        }
        r
    }

    /// `flush` is a forced swap: everything accepted so far reaches the
    /// destination's write call before this returns. It does not run the
    /// destination's own flush; only `close` does, once.
    pub fn flush(&mut self) -> (r: Result<(), StreamError>)
        requires
            old(self).wf(),
        ensures
            final(self).wf(),
            final(self).spec_capacity() == old(self).spec_capacity(),
            match r {
                Ok(()) => {
                    &&& !old(self).is_failed()
                    &&& !final(self).is_failed()
                    &&& final(self).delivered_chunks() == flushed_chunks(
                        old(self).delivered_chunks(),
                        old(self).pending(),
                    )
                    &&& final(self).pending() == Seq::<u8>::empty()
                    &&& final(self).delivered_bytes() == old(self).delivered_bytes() + old(
                        self,
                    ).pending()
                },
                Err(e) => {
                    &&& final(self).failure() == Some(e)
                    &&& final(self).delivered_chunks() == old(self).delivered_chunks()
                    &&& (old(self).is_failed() ==> Some(e) == old(self).failure() && final(self).pending() == old(self).pending())
                },
            },
    {
        self.swap_chunk()
    }

    /// Write the whole of `buf`, retrying partial writes, swapping as
    /// buffers fill.
    pub fn write_all(&mut self, buf: &[u8]) -> (r: Result<(), StreamError>)
        requires
            old(self).wf(),
        ensures
            final(self).wf(),
            final(self).spec_capacity() == old(self).spec_capacity(),
            (!old(self).is_failed() && old(self).pending().len() + buf@.len() < old(
                self,
            ).spec_capacity()) ==> r is Ok,
            match r {
                Ok(()) => {
                    &&& final(self).failure() == old(self).failure()
                    &&& (buf@.len() > 0 ==> !old(self).is_failed() && !final(self).is_failed())
                    &&& final(self).delivered_bytes() + final(self).pending() == old(
                        self,
                    ).delivered_bytes() + old(self).pending() + buf@
                },
                Err(e) => final(self).failure() == Some(e),
            },
    {
        let mut written: usize = 0;
        while written < buf.len()
            invariant
                old(self).wf(),
                self.wf(),
                written <= buf@.len(),
                self.spec_capacity() == old(self).spec_capacity(),
                self.failure() == old(self).failure(),
                written > 0 ==> !self.is_failed(),
                (!old(self).is_failed() && old(self).pending().len() + buf@.len() < old(
                    self,
                ).spec_capacity()) ==> (!self.is_failed() && self.pending().len() + (buf@.len()
                    - written) < self.spec_capacity()),
                self.delivered_bytes() + self.pending() == old(self).delivered_bytes() + old(
                    self,
                ).pending() + buf@.take(written as int),
            decreases buf@.len() - written,
        {
            let end = buf.len();
            let ghost pre = *self;
            match self.write(&buf[written..end]) {
                Ok(n) => {
                    proof {
                        let prev = written as int;
                        let consumed = buf@.subrange(prev, end as int).take(n as int);
                        assert(buf@.take(prev) + consumed =~= buf@.take(prev + n));
                        if pre.pending().len() + n == pre.spec_capacity() {
                            pre.delivered_chunks().lemma_flatten_push(pre.pending() + consumed);
                        }
                        assert(self.delivered_bytes() + self.pending() =~= pre.delivered_bytes()
                            + pre.pending() + consumed);
                        assert(self.delivered_bytes() + self.pending() =~= old(
                            self,
                        ).delivered_bytes() + old(self).pending() + buf@.take(prev + n));
                    }
                    written = written + n;
                },
                Err(e) => {
                    return Err(e);
                },
            }
        }
        proof {
            assert(buf@.take(buf@.len() as int) =~= buf@);
            assert(self.delivered_bytes() + self.pending() =~= old(self).delivered_bytes() + old(
                self,
            ).pending() + buf@);
        }
        Ok(())
    }

    /// Close the producer: force one last swap so every accepted byte
    /// reaches the destination, then run the destination's single final
    /// flush, and hand the destination back.
    pub fn close(self) -> (r: Result<S, StreamError>)
        requires
            self.wf(),
        ensures
            match r {
                Ok(s) => {
                    &&& !self.is_failed()
                    &&& s.chunks() == flushed_chunks(self.delivered_chunks(), self.pending())
                    &&& s.chunks().flatten() == self.delivered_bytes() + self.pending()
                    &&& s.chunks().flatten() == self.accepted_bytes()
                    &&& s.finished()
                },
                Err(e) => {
                    &&& (self.is_failed() ==> Some(e) == self.failure())
                },
            },
    {
        let mut this = self;
        match this.swap_chunk() {
            Ok(()) => {},
            Err(e) => {
                return Err(e);
            },
        }
        match this.sink.finish_sink() {
            Ok(()) => {
                proof {
                    if self.pending().len() > 0 {
                        self.delivered_chunks().lemma_flatten_push(self.pending());
                    } else {
                        assert(self.delivered_bytes() + self.pending() =~= self.delivered_bytes());
                    }
                }
                Ok(this.sink)
            },
            Err(e) => Err(e),
        }
    }
}

/// Delivery preserves content and order: at any well-formed, unfailed
/// state, the destination's bytes followed by the pending bytes are
/// exactly the bytes accepted from the caller, and every delivered chunk
/// is non-empty and at most one chunk capacity long — chunk boundaries
/// may differ from the caller's write boundaries, the bytes never do.
pub proof fn lemma_transport_invariant<S: ChunkSink>(w: &RemoteBufWriter<S>)
    requires
        w.wf(),
        !w.is_failed(),
    ensures
        w.delivered_bytes() + w.pending() == w.accepted_bytes(),
        forall|i: int|
            0 <= i < w.delivered_chunks().len() ==> 0 < (#[trigger] w.delivered_chunks()[i]).len()
                <= w.spec_capacity(),
{
}

/// Flushing is idempotent: a flush leaves nothing pending, so a second
/// flush with no intervening writes hands over nothing and delivers no
/// additional data.
pub proof fn lemma_flush_idempotent(delivered: Seq<Seq<u8>>, pending: Seq<u8>)
    ensures
        flushed_chunks(flushed_chunks(delivered, pending), Seq::<u8>::empty()) == flushed_chunks(
            delivered,
            pending,
        ),
{
}

} // verus!
