use reliost::{RemoteBufWriter, StreamError, VecSink};

fn collect(sink: &VecSink) -> Vec<u8> {
    sink.concat_received()
}

#[test]
fn exact_capacity_write_triggers_automatic_swap() {
    // writing exactly C bytes (C = 8) in one call swaps with no explicit
    // flush, and the destination receives one 8-byte chunk
    let mut writer = RemoteBufWriter::with_capacity(8, VecSink::new());
    let n = writer.write(&[1, 2, 3, 4, 5, 6, 7, 8]).unwrap();
    assert_eq!(n, 8);
    let sink = writer.close().unwrap();
    let received = sink.received();
    assert_eq!(received.len(), 1);
    assert_eq!(received[0], vec![1, 2, 3, 4, 5, 6, 7, 8]);
}

#[test]
fn flush_delivers_partial_chunk_and_next_write_starts_fresh() {
    // writing C/2 bytes then flushing delivers exactly that partial
    // chunk; the next write goes into a new, empty chunk
    let mut writer = RemoteBufWriter::with_capacity(8, VecSink::new());
    let n = writer.write(&[10, 20, 30, 40]).unwrap();
    assert_eq!(n, 4);
    writer.flush().unwrap();
    let n = writer.write(&[50, 60]).unwrap();
    assert_eq!(n, 2);
    let sink = writer.close().unwrap();
    let received = sink.received();
    assert_eq!(received.len(), 2);
    assert_eq!(received[0], vec![10, 20, 30, 40]);
    assert_eq!(received[1], vec![50, 60]);
}

#[test]
fn flush_is_idempotent() {
    // repeated flushes with no intervening writes add no destination data
    let mut writer = RemoteBufWriter::with_capacity(8, VecSink::new());
    writer.write(&[1, 2, 3]).unwrap();
    writer.flush().unwrap();
    writer.flush().unwrap();
    writer.flush().unwrap();
    let sink = writer.close().unwrap();
    assert_eq!(sink.received().len(), 1);
    assert_eq!(collect(&sink), vec![1, 2, 3]);
}

#[test]
fn flush_on_empty_writer_delivers_nothing() {
    let mut writer = RemoteBufWriter::<VecSink>::with_capacity(8, VecSink::new());
    writer.flush().unwrap();
    let sink = writer.close().unwrap();
    assert_eq!(sink.received().len(), 0);
    assert!(sink.was_finished());
}

#[test]
fn delivery_preserves_bytes_order_and_chunk_bound() {
    // the destination receives exactly the concatenation of everything
    // written, split into chunks of size <= C, in order
    let capacity = 7;
    let mut writer = RemoteBufWriter::with_capacity(capacity, VecSink::new());
    let mut expected: Vec<u8> = Vec::new();
    let mut counter: u8 = 0;
    for size in [1usize, 5, 13, 2, 29, 7, 1, 64, 3] {
        let chunk: Vec<u8> = (0..size)
            .map(|_| {
                counter = counter.wrapping_add(1);
                counter
            })
            .collect();
        expected.extend_from_slice(&chunk);
        writer.write_all(&chunk).unwrap();
    }
    writer.flush().unwrap();
    let sink = writer.close().unwrap();
    assert_eq!(collect(&sink), expected);
    for chunk in sink.received() {
        assert!(!chunk.is_empty());
        assert!(chunk.len() <= capacity);
    }
}

#[test]
fn closing_after_n_bytes_yields_n_bytes_and_one_final_flush() {
    // closing the producer after N total bytes yields exactly N bytes at
    // the destination, followed by exactly one final flush
    let mut writer = RemoteBufWriter::with_capacity(16, VecSink::new());
    let payload: Vec<u8> = (0u16..1000).map(|i| (i % 251) as u8).collect();
    writer.write_all(&payload).unwrap();
    let sink = writer.close().unwrap();
    assert_eq!(collect(&sink).len(), 1000);
    assert_eq!(collect(&sink), payload);
    assert!(sink.was_finished());
}

#[test]
fn write_reports_partial_consumption() {
    let mut writer = RemoteBufWriter::with_capacity(8, VecSink::new());
    writer.write(&[1, 2, 3, 4, 5]).unwrap();
    // only 3 bytes of room remain; the rest must be retried
    let n = writer.write(&[6, 7, 8, 9, 10]).unwrap();
    assert_eq!(n, 3);
    let sink = writer.close().unwrap();
    assert_eq!(collect(&sink), vec![1, 2, 3, 4, 5, 6, 7, 8]);
}

#[test]
fn error_message_texts() {
    assert_eq!(StreamError::ConsumerGone.message(), "receiver disconnected");
    assert_eq!(
        StreamError::DestinationFailed.message(),
        "destination writer failed"
    );
}
