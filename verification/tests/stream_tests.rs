use dactor::stream::{BatchBuffer, BatchConfig, StreamSendError, Unbatcher};
use std::time::Duration;

const MS: u64 = 1_000_000;

/// Drains a buffer through an unbatcher, the way a reader sees the batches.
fn unbatch_all(batches: Vec<Vec<i32>>) -> Vec<i32> {
    let mut u: Unbatcher<i32> = Unbatcher::new();
    let mut out = Vec::new();
    let mut it = batches.into_iter();
    loop {
        match u.next_item() {
            Some(x) => out.push(x),
            None => match it.next() {
                Some(b) => u.load(b),
                None => break,
            },
        }
    }
    out
}

#[test]
fn test_batch_config_default() {
    let config = BatchConfig::default();
    assert_eq!(config.max_items, 64);
    assert_eq!(config.max_delay, Duration::from_millis(5));
}

#[test]
fn test_batch_config_clamps_to_one() {
    let config = BatchConfig::new(0, Duration::from_millis(1));
    assert_eq!(config.max_items, 1);
}

#[test]
fn test_batch_writer_reader_roundtrip() {
    let mut writer = BatchBuffer::new(BatchConfig::new(3, Duration::from_secs(10)));
    // Push 3 items → triggers flush (batch full)
    assert!(writer.push(1, 0).is_none());
    assert!(writer.push(2, 0).is_none());
    let batch = writer.push(3, 0).expect("full batch");
    assert_eq!(unbatch_all(vec![batch]), vec![1, 2, 3]);
}

#[test]
fn test_batch_writer_flush_explicit() {
    let mut writer = BatchBuffer::new(BatchConfig::new(100, Duration::from_secs(10)));
    assert!(writer.push(42, 0).is_none());
    assert_eq!(writer.buffered_count(), 1);
    let batch = writer.flush();
    assert_eq!(writer.buffered_count(), 0);
    assert_eq!(batch, Some(vec![42]));
}

#[test]
fn test_batch_writer_flush_on_deadline() {
    let mut writer = BatchBuffer::new(BatchConfig::new(100, Duration::from_millis(10)));
    assert!(writer.push(42, 0).is_none());
    assert_eq!(writer.buffered_count(), 1);
    // Before the deadline nothing is flushed.
    assert_eq!(writer.check_deadline(5 * MS), None);
    // Past the deadline the batch goes out.
    assert_eq!(writer.check_deadline(20 * MS), Some(vec![42]));
    assert_eq!(writer.buffered_count(), 0);
}

#[test]
fn test_batch_reader_as_stream() {
    let mut writer = BatchBuffer::new(BatchConfig::new(2, Duration::from_secs(10)));
    let mut batches = Vec::new();
    for x in [10, 20, 30, 40] {
        if let Some(b) = writer.push(x, 0) {
            batches.push(b);
        }
    }
    assert_eq!(batches.len(), 2);
    assert_eq!(unbatch_all(batches), vec![10, 20, 30, 40]);
}

#[test]
fn test_batch_empty_flush_is_noop() {
    let mut writer: BatchBuffer<i32> = BatchBuffer::new(BatchConfig::default());
    assert_eq!(writer.flush(), None);
    assert_eq!(writer.buffered_count(), 0);
}

#[test]
fn test_batch_reader_empty_batch_skipped() {
    assert_eq!(unbatch_all(vec![vec![], vec![1, 2]]), vec![1, 2]);
}

#[test]
fn deadline_is_set_by_first_item_only() {
    let mut writer = BatchBuffer::new(BatchConfig::new(100, Duration::from_millis(10)));
    assert!(writer.push(1, 0).is_none());
    assert!(writer.push(2, 8 * MS).is_none());
    // The deadline counts from the first item (0 + 10 ms), not the second.
    assert_eq!(writer.check_deadline(10 * MS), Some(vec![1, 2]));
    // After a flush the next item starts a new deadline.
    assert!(writer.push(3, 11 * MS).is_none());
    assert_eq!(writer.check_deadline(20 * MS), None);
    assert_eq!(writer.check_deadline(21 * MS), Some(vec![3]));
}

#[test]
fn max_delay_reported() {
    let writer: BatchBuffer<u8> = BatchBuffer::new(BatchConfig::new(4, Duration::from_millis(7)));
    assert_eq!(writer.max_delay(), Duration::from_millis(7));
}

#[test]
fn stream_send_error_texts() {
    assert_eq!(StreamSendError::ConsumerDropped.to_string(), "stream consumer dropped");
    assert_eq!(StreamSendError::Full.to_string(), "stream buffer full");
}
