use vstd::prelude::*;

use crate::error::StreamError;

verus! {

/// A synchronous destination for the chunks produced by the streaming
/// bridge.
///
/// A sink accepts whole chunks of bytes, in order, and is flushed exactly
/// once when the producer closes the chain. `chunks()` is the abstract
/// history of everything accepted so far, oldest first; empty chunks are
/// absorbed without a trace, so every recorded chunk is non-empty.
pub trait ChunkSink: Sized {
    /// The chunks accepted so far, oldest first.
    spec fn chunks(&self) -> Seq<Seq<u8>>;

    /// Whether the sink can currently accept chunks.
    spec fn wf(&self) -> bool;

    /// Whether the final flush has already run.
    spec fn finished(&self) -> bool;

    /// Deliver one chunk. On success the chunk (if non-empty) is appended
    /// to the history; on failure the history is unchanged and no bytes
    /// were delivered. An empty chunk is absorbed without any delivery,
    /// so it always succeeds.
    fn accept_chunk(&mut self, chunk: &[u8]) -> (r: Result<(), StreamError>)
        requires
            old(self).wf(),
            !old(self).finished(),
        ensures
            chunk@.len() == 0 ==> r is Ok,
            match r {
                Ok(()) => {
                    &&& final(self).wf()
                    &&& !final(self).finished()
                    &&& final(self).chunks() == (if chunk@.len() == 0 {
                        old(self).chunks()
                    } else {
                        old(self).chunks().push(chunk@)
                    })
                },
                Err(_) => {
                    &&& final(self).chunks() == old(self).chunks()
                    &&& !final(self).finished()
                },
            },
    ;

    /// Run the one final flush, after which no further chunk is accepted.
    fn finish_sink(&mut self) -> (r: Result<(), StreamError>)
        requires
            old(self).wf(),
            !old(self).finished(),
        ensures
            match r {
                Ok(()) => {
                    &&& final(self).chunks() == old(self).chunks()
                    &&& final(self).finished()
                },
                Err(_) => final(self).chunks() == old(self).chunks(),
            },
    ;
}

/// All bytes a sink has accepted, in order.
pub open spec fn sink_data<S: ChunkSink>(s: &S) -> Seq<u8> {
    s.chunks().flatten()
}

/// An in-memory destination that records each delivered chunk and whether
/// the final flush has run. It stands in for the real downstream writer in
/// tests and anywhere a fully observable destination is wanted.
pub struct VecSink {
    received: Vec<Vec<u8>>,
    flushed: bool,
}

impl VecSink {
    pub fn new() -> (r: VecSink)
        ensures
            r.wf(),
            !r.finished(),
            r.chunks() == Seq::<Seq<u8>>::empty(),
    {
        VecSink { received: Vec::new(), flushed: false }
    }

    /// The chunks received so far, oldest first.
    pub fn received(&self) -> (r: &Vec<Vec<u8>>)
        ensures
            r@.map_values(|v: Vec<u8>| v@) == self.chunks(),
    {
        &self.received
    }

    /// Whether the final flush has run.
    pub fn was_finished(&self) -> (r: bool)
        ensures
            r == self.finished(),
    {
        self.flushed
    }

    /// The concatenation of every received chunk, in order.
    pub fn concat_received(&self) -> (r: Vec<u8>)
        ensures
            r@ == sink_data(self),
    {
        let mut out: Vec<u8> = Vec::new();
        let ghost chunk_views = self.received@.map_values(|v: Vec<u8>| v@);
        for i in 0..self.received.len()
            invariant
                chunk_views == self.received@.map_values(|v: Vec<u8>| v@),
                out@ == chunk_views.take(i as int).flatten(),
        {
            proof {
                assert(chunk_views.take(i as int).push(chunk_views[i as int]) =~= chunk_views.take(
                    i + 1,
                ));
                chunk_views.take(i as int).lemma_flatten_push(chunk_views[i as int]);
            }
            out.extend_from_slice(self.received[i].as_slice());
        }
        proof {
            assert(chunk_views.take(self.received@.len() as int) =~= chunk_views);
        }
        out
    }
}

impl ChunkSink for VecSink {
    closed spec fn chunks(&self) -> Seq<Seq<u8>> {
        self.received@.map_values(|v: Vec<u8>| v@)
    }

    closed spec fn wf(&self) -> bool {
        !self.flushed
    }

    closed spec fn finished(&self) -> bool {
        self.flushed
    }

    fn accept_chunk(&mut self, chunk: &[u8]) -> (r: Result<(), StreamError>) {
        if chunk.len() > 0 {
            let mut copy: Vec<u8> = Vec::new();
            copy.extend_from_slice(chunk);
            self.received.push(copy);
            proof {
                assert(copy@ == chunk@);
                assert(self.received@.map_values(|v: Vec<u8>| v@) =~~= old(
                    self,
                ).received@.map_values(|v: Vec<u8>| v@).push(chunk@));
            }
        }
        Ok(())
    }

    fn finish_sink(&mut self) -> (r: Result<(), StreamError>) {
        self.flushed = true;
        Ok(())
    }
}

} // verus!
