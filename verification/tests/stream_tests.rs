use std::io::Read;

use reliost::{build_stream_pipeline, StreamError};

fn drain(rx: &mut tokio::sync::mpsc::Receiver<Vec<u8>>) -> Vec<Vec<u8>> {
    let mut messages = Vec::new();
    while let Ok(message) = rx.try_recv() {
        messages.push(message);
    }
    messages
}

fn gunzip(compressed: &[u8]) -> Vec<u8> {
    let mut decoder = flate2::read::GzDecoder::new(compressed);
    let mut out = Vec::new();
    decoder.read_to_end(&mut out).expect("valid gzip stream");
    out
}

#[test]
fn small_payload_round_trips_through_the_chain() {
    let (tx, mut rx) = tokio::sync::mpsc::channel::<Vec<u8>>(64);
    let mut writer = build_stream_pipeline(tx, 8, 2);
    let payload = b"hello, streaming world";
    writer.write_all(payload).unwrap();
    writer.flush().unwrap();
    writer.close().unwrap();
    let compressed: Vec<u8> = drain(&mut rx).concat();
    assert_eq!(
        &compressed[0..10],
        &[0x1f, 0x8b, 0x08, 0, 0, 0, 0, 0, 0, 0xff]
    );
    assert_eq!(gunzip(&compressed), payload.to_vec());
}

#[test]
fn empty_payload_still_forms_a_valid_gzip_stream() {
    let (tx, mut rx) = tokio::sync::mpsc::channel::<Vec<u8>>(64);
    let writer = build_stream_pipeline(tx, 64, 2);
    writer.close().unwrap();
    let compressed: Vec<u8> = drain(&mut rx).concat();
    assert_eq!(&compressed[0..3], &[0x1f, 0x8b, 0x08]);
    assert_eq!(gunzip(&compressed), Vec::<u8>::new());
}

#[test]
fn trailer_records_length_modulo_two_to_the_32() {
    let (tx, mut rx) = tokio::sync::mpsc::channel::<Vec<u8>>(1024);
    let mut writer = build_stream_pipeline(tx, 4096, 2);
    let payload: Vec<u8> = (0u32..100_000).map(|i| (i % 97) as u8).collect();
    writer.write_all(&payload).unwrap();
    writer.flush().unwrap();
    writer.close().unwrap();
    let compressed: Vec<u8> = drain(&mut rx).concat();
    let n = compressed.len();
    let isize_bytes = &compressed[n - 4..n];
    let recorded = u32::from_le_bytes([
        isize_bytes[0],
        isize_bytes[1],
        isize_bytes[2],
        isize_bytes[3],
    ]);
    assert_eq!(recorded as usize, payload.len());
    assert_eq!(gunzip(&compressed), payload);
}

#[test]
fn ten_megabyte_json_round_trips_exactly() {
    // serializing a large JSON value through the whole chain, then
    // decompressing the delivered stream, reproduces the value exactly
    let mut entries: Vec<String> = Vec::new();
    for i in 0..200_000u32 {
        entries.push(format!("symbol_frame_{i:07}_0x{:08x}", i.wrapping_mul(2654435761)));
    }
    let value = serde_json::to_value(&entries).unwrap();
    let serialized = serde_json::to_vec(&value).unwrap();
    assert!(serialized.len() > 10 * 1024 * 1024 / 2);

    let (tx, mut rx) = tokio::sync::mpsc::channel::<Vec<u8>>(8192);
    let mut writer = build_stream_pipeline(tx, 64 * 1024, 2);
    writer.write_all(&serialized).unwrap();
    writer.flush().unwrap();
    writer.close().unwrap();
    let compressed: Vec<u8> = drain(&mut rx).concat();
    assert!(compressed.len() < serialized.len());
    let decompressed = gunzip(&compressed);
    assert_eq!(decompressed, serialized);
    let round_tripped: serde_json::Value = serde_json::from_slice(&decompressed).unwrap();
    assert_eq!(round_tripped, value);
}

#[test]
fn consumer_gone_fails_write_and_stops_destination_writes() {
    // once the receiving side is dropped, the next write or flush that
    // reaches the queue fails with the consumer-gone condition, the
    // cause is retained, and nothing further is delivered
    let (tx, rx) = tokio::sync::mpsc::channel::<Vec<u8>>(4);
    let mut writer = build_stream_pipeline(tx, 8, 2);
    drop(rx);
    let mut seen_error = None;
    for _ in 0..100 {
        match writer.write(&[7u8; 8]) {
            Ok(_) => {},
            Err(e) => {
                seen_error = Some(e);
                break;
            },
        }
    }
    assert_eq!(seen_error, Some(StreamError::ConsumerGone));
    // every later write and flush reports the retained cause at once
    assert_eq!(writer.write(&[1]).unwrap_err(), StreamError::ConsumerGone);
    assert_eq!(writer.flush().unwrap_err(), StreamError::ConsumerGone);
    assert!(writer.close().is_err());
}

#[test]
fn backpressure_queue_fills_and_resumes() {
    // with a capacity-4 queue and a consumer that drains late, the
    // producer still delivers everything once draining happens; the
    // blocking send is exercised on the runtime's blocking pool
    let runtime = tokio::runtime::Runtime::new().unwrap();
    let (tx, mut rx) = tokio::sync::mpsc::channel::<Vec<u8>>(4);
    let payload: Vec<u8> = (0u32..1_000_000).map(|i| (i % 251) as u8).collect();
    let expected = payload.clone();
    let producer = runtime.spawn_blocking(move || {
        // incompressible-ish chunk size keeps many messages in flight
        let mut writer = build_stream_pipeline(tx, 1024, 0);
        writer.write_all(&payload).unwrap();
        writer.flush().unwrap();
        writer.close().unwrap();
    });
    let compressed: Vec<u8> = runtime.block_on(async move {
        let mut all = Vec::new();
        while let Some(message) = rx.recv().await {
            // let the queue fill up between reads
            tokio::time::sleep(std::time::Duration::from_millis(1)).await;
            all.extend_from_slice(&message);
        }
        all
    });
    runtime.block_on(producer).unwrap();
    assert_eq!(gunzip(&compressed), expected);
}
