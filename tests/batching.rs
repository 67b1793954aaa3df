use ironlog::{LogMessage, LogQueue, WriteBatch};

fn record(seq: usize) -> LogMessage {
    LogMessage {
        level: "INFO".to_string(),
        message: format!("{}", seq),
        target: "t".to_string(),
        module_name: None,
        file: None,
        line: None,
        hash: "S".to_string(),
        timestamp: format!("2024-01-01T00:00:{:02}+00:00", seq % 60),
    }
}

#[test]
fn batches_keep_connection_order() {
    let mut batch = WriteBatch::new(7);
    let mut written: Vec<LogMessage> = Vec::new();
    for i in 0..100 {
        // The channel looks empty after every ninth record.
        let more_waiting = i % 9 != 8;
        if let Some(out) = batch.push(record(i), more_waiting) {
            assert!(!out.is_empty());
            assert!(out.len() <= 7);
            written.extend(out);
        }
    }
    written.extend(batch.drain());
    assert_eq!(written.len(), 100);
    for (i, r) in written.iter().enumerate() {
        assert_eq!(r.message, format!("{}", i));
    }
}

#[test]
fn batch_flushes_when_full() {
    let mut batch = WriteBatch::new(3);
    assert!(batch.push(record(0), true).is_none());
    assert!(batch.push(record(1), true).is_none());
    let out = batch.push(record(2), true).expect("full batch");
    assert_eq!(out.len(), 3);
    assert!(batch.drain().is_empty());
}

#[test]
fn batch_flushes_when_channel_is_idle() {
    let mut batch = WriteBatch::new(1000);
    let out = batch.push(record(0), false).expect("idle flush");
    assert_eq!(out.len(), 1);
    assert_eq!(out[0].message, "0");
}

#[test]
fn queue_drops_oldest_when_full() {
    let mut q = LogQueue::new(2);
    assert!(q.push(record(0)).is_none());
    assert!(q.push(record(1)).is_none());
    let dropped = q.push(record(2)).expect("oldest dropped");
    assert_eq!(dropped.message, "0");
    assert_eq!(q.len(), 2);
    let dropped = q.push(record(3)).expect("oldest dropped");
    assert_eq!(dropped.message, "1");
}

#[test]
fn queue_of_zero_size_keeps_growing() {
    let mut q = LogQueue::new(0);
    assert!(q.push(record(0)).is_none());
    assert_eq!(q.len(), 1);
    let dropped = q.push(record(1)).expect("oldest dropped");
    assert_eq!(dropped.message, "0");
    assert_eq!(q.len(), 1);
}
