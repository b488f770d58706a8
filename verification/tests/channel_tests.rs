use reliost::{BlockingChannelWriter, StreamError};

fn drain(rx: &mut tokio::sync::mpsc::Receiver<Vec<u8>>) -> Vec<Vec<u8>> {
    let mut messages = Vec::new();
    while let Ok(message) = rx.try_recv() {
        messages.push(message);
    }
    messages
}

#[test]
fn one_message_per_write_in_order() {
    // the concatenation of every message delivered equals exactly the
    // bytes written, in original order
    let (tx, mut rx) = tokio::sync::mpsc::channel::<Vec<u8>>(16);
    let mut writer = BlockingChannelWriter::new(tx);
    let parts: [&[u8]; 4] = [b"alpha", b"", b"beta", b"g"];
    let mut expected: Vec<u8> = Vec::new();
    for part in parts {
        let n = writer.write(part).unwrap();
        assert_eq!(n, part.len());
        expected.extend_from_slice(part);
    }
    drop(writer);
    let messages = drain(&mut rx);
    // the empty write was a no-op: three messages, none empty
    assert_eq!(messages.len(), 3);
    for message in &messages {
        assert!(!message.is_empty());
    }
    let delivered: Vec<u8> = messages.concat();
    assert_eq!(delivered, expected);
}

#[test]
fn empty_write_is_a_no_op() {
    let (tx, mut rx) = tokio::sync::mpsc::channel::<Vec<u8>>(4);
    let mut writer = BlockingChannelWriter::new(tx);
    assert_eq!(writer.write(&[]).unwrap(), 0);
    writer.flush().unwrap();
    drop(writer);
    assert!(drain(&mut rx).is_empty());
}

#[test]
fn write_after_receiver_dropped_is_consumer_gone() {
    let (tx, rx) = tokio::sync::mpsc::channel::<Vec<u8>>(4);
    let mut writer = BlockingChannelWriter::new(tx);
    drop(rx);
    let err = writer.write(b"anything").unwrap_err();
    assert_eq!(err, StreamError::ConsumerGone);
    // and again: the condition is permanent
    let err = writer.write(b"more").unwrap_err();
    assert_eq!(err, StreamError::ConsumerGone);
}

#[test]
fn flush_is_a_no_op() {
    let (tx, mut rx) = tokio::sync::mpsc::channel::<Vec<u8>>(4);
    let mut writer = BlockingChannelWriter::new(tx);
    writer.write(b"data").unwrap();
    writer.flush().unwrap();
    writer.flush().unwrap();
    drop(writer);
    let messages = drain(&mut rx);
    assert_eq!(messages.len(), 1);
    assert_eq!(messages[0], b"data".to_vec());
}
