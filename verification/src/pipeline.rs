use vstd::prelude::*;

use crate::channel_writer::{lemma_channel_messages, BlockingChannelWriter};
use crate::coalesce::{lemma_coalesce_invariant, CoalescingBuffer};
use crate::double_buffered_pipe::{lemma_transport_invariant, RemoteBufWriter};
use crate::gzip::{gzip_header, lemma_gzip_invariant, GzipSink};
use crate::sink::sink_data;

verus! {

/// The writer chain assembled per streamed response, bottom-up: a
/// channel writer delivering one queue message per write, a coalescing
/// layer batching the compressor's small writes to the chunk size, the
/// gzip stage, and the chunk-swapping writer the serializer writes
/// into.
pub type StreamPipeline = RemoteBufWriter<GzipSink<CoalescingBuffer<BlockingChannelWriter>>>;

/// Assemble the chain for one streamed response: everything written to
/// the result is compressed and reaches the queue behind `sender` as
/// messages of roughly `chunk_capacity` bytes.
pub fn build_stream_pipeline(
    sender: tokio::sync::mpsc::Sender<Vec<u8>>,
    chunk_capacity: usize,
    compression_level: u32,
) -> (w: StreamPipeline)
    requires
        chunk_capacity >= 1,
        compression_level <= 9,
    ensures
        w.wf(),
        !w.is_failed(),
        w.spec_capacity() == chunk_capacity,
        w.delivered_chunks() == Seq::<Seq<u8>>::empty(),
        w.pending() == Seq::<u8>::empty(),
        w.destination().inner_sink().spec_capacity() == chunk_capacity,
        w.destination().inner_sink().inner_sink().messages() == Seq::<Seq<u8>>::empty(),
{
    let channel = BlockingChannelWriter::new(sender);
    proof {
        lemma_channel_messages(&channel);
    }
    let coalesce = CoalescingBuffer::with_capacity(chunk_capacity, channel);
    let gz = GzipSink::new(compression_level, coalesce);
    RemoteBufWriter::with_capacity(chunk_capacity, gz)
}

/// The end-to-end transport law of the bridge: in any well-formed,
/// unfailed state, the bytes fed to the compressor followed by the bytes
/// pending a swap are exactly the bytes the caller wrote; the messages
/// on the queue followed by the bytes batched in the coalescing layer
/// are exactly the compressor's framed emission; and that emission, once
/// non-empty, begins with the gzip header. Nothing is lost, duplicated
/// or reordered anywhere in the chain, and the bytes buffered inside it
/// (outside the bounded queue itself) stay under one chunk capacity per
/// stage, however large the response is.
pub proof fn lemma_pipeline_transport(w: &StreamPipeline)
    requires
        w.wf(),
        !w.is_failed(),
    ensures
        sink_data(&w.destination()) + w.pending() == w.accepted_bytes(),
        w.destination().inner_sink().inner_sink().messages().flatten()
            + w.destination().inner_sink().buffered() == w.destination().emitted_bytes(),
        w.destination().header_sent() ==> w.destination().emitted_bytes().take(10)
            == gzip_header(),
        w.destination().checksum_input() == sink_data(&w.destination()),
        w.pending().len() < w.spec_capacity(),
        w.destination().inner_sink().buffered().len() <= w.destination().inner_sink().spec_capacity(),
{
    lemma_transport_invariant(w);
    let gz = w.destination();
    lemma_gzip_invariant(&gz);
    let co = gz.inner_sink();
    lemma_coalesce_invariant(&co);
    lemma_channel_messages(&co.inner_sink());
}

} // verus!
