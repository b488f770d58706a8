use vstd::prelude::*;

use crate::error::StreamError;
use crate::sink::ChunkSink;

verus! {

broadcast use Seq::lemma_flatten_push;

/// Relies on `tokio::sync::mpsc::Sender`, the sending side of a bounded
/// queue, declared here so that it can be held and passed around; Verus
/// sees nothing inside it.
#[verifier::external_type_specification]
#[verifier::external_body]
#[verifier::reject_recursive_types(T)]
pub struct ExSender<T>(tokio::sync::mpsc::Sender<T>);

/// Relies on `tokio::sync::mpsc::Sender::blocking_send`: the message is
/// enqueued if and only if the receiving side of the channel still
/// exists, blocking the calling thread while the queue is full — the
/// sole backpressure mechanism of the bridge. Must be called from a
/// blocking context, never from inside the async reactor.
#[verifier::external_body]
fn send_message(sender: &tokio::sync::mpsc::Sender<Vec<u8>>, message: Vec<u8>) -> (delivered:
    bool) {
    sender.blocking_send(message).is_ok()
}

/// A writer that sends one queue message for every write: the handoff
/// from the synchronous writer chain into the async world.
///
/// Empty writes are a no-op; a non-empty write is copied into one
/// message and enqueued whole, blocking while the queue is full. The
/// only failure is the receiving side having been dropped (the client
/// disconnected). `messages()` records every message delivered, in
/// order; their concatenation is exactly the bytes successfully
/// written.
pub struct BlockingChannelWriter {
    sender: Option<tokio::sync::mpsc::Sender<Vec<u8>>>,
    sent: Ghost<Seq<Seq<u8>>>,
}

impl BlockingChannelWriter {
    /// The messages delivered to the queue so far, oldest first.
    pub closed spec fn messages(&self) -> Seq<Seq<u8>> {
        self.sent@
    }

    pub fn new(sender: tokio::sync::mpsc::Sender<Vec<u8>>) -> (r: BlockingChannelWriter)
        ensures
            r.wf(),
            !r.finished(),
            r.messages() == Seq::<Seq<u8>>::empty(),
    {
        BlockingChannelWriter { sender: Some(sender), sent: Ghost(Seq::empty()) }
    }

    /// Deliver `buf` as one message. The whole input is always consumed;
    /// there are no partial writes here, and an empty write is a no-op
    /// that succeeds without touching the queue.
    pub fn write(&mut self, buf: &[u8]) -> (r: Result<usize, StreamError>)
        requires
            !old(self).finished(),
        ensures
            final(self).finished() == old(self).finished(),
            buf@.len() == 0 ==> r is Ok,
            match r {
                Ok(n) => {
                    &&& n == buf@.len()
                    &&& final(self).messages() == (if buf@.len() == 0 {
                        old(self).messages()
                    } else {
                        old(self).messages().push(buf@)
                    })
                },
                Err(e) => {
                    &&& e == StreamError::ConsumerGone
                    &&& final(self).messages() == old(self).messages()
                },
            },
    {
        if buf.len() == 0 {
            return Ok(0);
        }
        let mut message: Vec<u8> = Vec::new();
        message.extend_from_slice(buf);
        let ghost message_view = message@;
        proof {
            assert(message_view =~= buf@);
        }
        let sender = self.sender.take().unwrap();
        let delivered = send_message(&sender, message);
        self.sender = Some(sender);
        if delivered {
            proof {
                self.sent@ = self.sent@.push(message_view);
            }
            Ok(buf.len())
        } else {
            Err(StreamError::ConsumerGone)
        }
    }

    /// Delivery is immediate per write, so there is nothing to flush.
    pub fn flush(&mut self) -> (r: Result<(), StreamError>)
        ensures
            *final(self) == *old(self),
            r is Ok,
    {
        Ok(())
    }
}

impl ChunkSink for BlockingChannelWriter {
    closed spec fn chunks(&self) -> Seq<Seq<u8>> {
        self.sent@
    }

    closed spec fn wf(&self) -> bool {
        self.sender is Some
    }

    closed spec fn finished(&self) -> bool {
        self.sender is None
    }

    fn accept_chunk(&mut self, chunk: &[u8]) -> (r: Result<(), StreamError>) {
        match self.write(chunk) {
            Ok(_) => Ok(()),
            Err(e) => Err(e),
        }
    }

    fn finish_sink(&mut self) -> (r: Result<(), StreamError>) {
        // Dropping the sender is what ends the queue and, with it, the
        // HTTP response body.
        let _ = self.sender.take();
        Ok(())
    }
}

/// The queue writer's message history and its sink history are one and
/// the same sequence.
pub proof fn lemma_channel_messages(c: &BlockingChannelWriter)
    ensures
        c.messages() == c.chunks(),
{
}

/// Sink Adapter transport law: a successful non-empty write appends
/// exactly its bytes to the concatenation of the delivered messages, and
/// an empty write appends nothing, so the concatenation of every message
/// delivered is exactly the bytes written, in order.
pub proof fn lemma_channel_write_appends(messages: Seq<Seq<u8>>, buf: Seq<u8>)
    ensures
        (if buf.len() == 0 {
            messages
        } else {
            messages.push(buf)
        }).flatten() == messages.flatten() + buf,
{
    if buf.len() == 0 {
        assert(messages.flatten() + buf =~= messages.flatten());
    }
}

} // verus!
