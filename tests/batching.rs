use pg_replicate::batching::{BatchConfig, BatchTimeoutStream};

#[test]
fn size_and_timeout_batches() {
    let mut s = BatchTimeoutStream::new(BatchConfig::new(3, 100));
    assert_eq!(s.deadline(), None);
    assert_eq!(s.push('a', true, 0), None);
    assert_eq!(s.deadline(), Some(100));
    assert_eq!(s.push('b', true, 10), None);
    assert_eq!(s.push('c', true, 20), Some(vec!['a', 'b', 'c']));
    assert_eq!(s.deadline(), None);
    assert_eq!(s.poll_deadline(400), None);
    assert_eq!(s.push('d', true, 500), None);
    assert_eq!(s.poll_deadline(599), None);
    assert_eq!(s.poll_deadline(600), Some(vec!['d']));
    assert_eq!(s.finish(), None);
}

#[test]
fn end_of_input_flushes() {
    let mut s = BatchTimeoutStream::new(BatchConfig::new(3, 100));
    assert_eq!(s.push(1, true, 0), None);
    assert_eq!(s.finish(), Some(vec![1]));
}

#[test]
fn empty_input_emits_nothing() {
    let mut s: BatchTimeoutStream<u8> = BatchTimeoutStream::new(BatchConfig::new(2, 100));
    assert_eq!(s.poll_deadline(1000), None);
    assert_eq!(s.finish(), None);
}

#[test]
fn all_items_arrive_in_order() {
    let mut s = BatchTimeoutStream::new(BatchConfig::new(4, 50));
    let mut out = Vec::new();
    for i in 0..10u64 {
        if let Some(b) = s.poll_deadline(i * 20) {
            assert!(!b.is_empty());
            out.extend(b);
        }
        if let Some(b) = s.push(i, true, i * 20) {
            assert!(!b.is_empty() && b.len() <= 4);
            out.extend(b);
        }
    }
    if let Some(b) = s.finish() {
        out.extend(b);
    }
    assert_eq!(out, (0..10).collect::<Vec<u64>>());
}

#[test]
fn size_one_emits_each_item() {
    let mut s = BatchTimeoutStream::new(BatchConfig::new(1, 100));
    assert_eq!(s.push(7, true, 0), Some(vec![7]));
    assert_eq!(s.deadline(), None);
}

#[test]
fn batches_end_only_after_boundary_items() {
    let mut s = BatchTimeoutStream::new(BatchConfig::new(2, 100));
    assert_eq!(s.push("begin", false, 0), None);
    assert_eq!(s.push("insert", false, 1), None);
    assert_eq!(s.poll_deadline(500), None);
    assert_eq!(s.push("commit", true, 600), Some(vec!["begin", "insert", "commit"]));
    assert_eq!(s.push("begin", false, 700), None);
    assert_eq!(s.push("commit", true, 710), Some(vec!["begin", "commit"]));
    assert_eq!(s.push("keepalive", true, 800), None);
    assert_eq!(s.poll_deadline(900), Some(vec!["keepalive"]));
}

#[test]
fn upstream_end_flushes_without_boundary() {
    let mut s = BatchTimeoutStream::new(BatchConfig::new(5, 100));
    assert_eq!(s.push(1, false, 0), None);
    assert_eq!(s.finish(), Some(vec![1]));
}
