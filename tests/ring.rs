use web_pty_server::{PushResult, RingBuffer};

#[test]
fn test_ring_buffer_push_and_seq() {
    let mut ring = RingBuffer::new(1024, 10);
    assert_eq!(ring.push(vec![1, 2, 3]), PushResult::Stored);
    assert_eq!(ring.current_seq(), 0);
    assert_eq!(ring.push(vec![4, 5, 6]), PushResult::Stored);
    assert_eq!(ring.current_seq(), 1);
    let frames = ring.get_all();
    assert_eq!(frames.len(), 2);
    assert_eq!(frames[0].seq, 0);
    assert_eq!(frames[1].seq, 1);
}

#[test]
fn test_ring_buffer_byte_cap() {
    let mut ring = RingBuffer::new(10, 100);
    assert_eq!(ring.push(vec![1, 2, 3, 4, 5]), PushResult::Stored);
    assert_eq!(ring.metrics().byte_count, 5);
    assert_eq!(ring.metrics().drops, 0);
    let result = ring.push(vec![6, 7, 8, 9, 10, 11]);
    assert!(matches!(result, PushResult::Truncated { .. }));
    assert_eq!(ring.metrics().drops, 1);
    assert_eq!(ring.get_all().len(), 1);
    assert_eq!(ring.metrics().byte_count, 6);
}

#[test]
fn test_ring_buffer_frame_cap() {
    let mut ring = RingBuffer::new(1_048_576, 3);
    ring.push(vec![1]);
    ring.push(vec![2]);
    ring.push(vec![3]);
    assert_eq!(ring.get_all().len(), 3);
    ring.push(vec![4]);
    let frames = ring.get_all();
    assert_eq!(frames.len(), 3);
    assert_eq!(frames[0].data, vec![2]);
    assert_eq!(ring.metrics().drops, 1);
}

#[test]
fn test_drain_since_watermark() {
    let mut ring = RingBuffer::new(1024, 10);
    ring.push(vec![1]);
    ring.push(vec![2]);
    ring.push(vec![3]);
    ring.push(vec![4]);
    let frames = ring.drain_since(1, 100);
    assert_eq!(frames.len(), 2);
    assert_eq!(frames[0].seq, 2);
    assert_eq!(frames[1].seq, 3);
}

#[test]
fn test_truncation_rate_limiting() {
    let mut ring = RingBuffer::new(5, 1);
    ring.push(vec![1, 2, 3]);
    let result1 = ring.push(vec![4, 5, 6]);
    assert!(matches!(result1, PushResult::Truncated { .. }));
    assert_eq!(ring.metrics().truncations, 1);
    let _result2 = ring.push(vec![7, 8, 9]);
    assert_eq!(ring.metrics().truncations, 1);
}

#[test]
fn byte_cap_scenario_reports_one_drop() {
    let mut ring = RingBuffer::new(10, 100);
    assert_eq!(ring.push_at(vec![1, 2, 3, 4, 5], 0), PushResult::Stored);
    assert_eq!(ring.metrics().drops, 0);
    assert_eq!(
        ring.push_at(vec![6, 7, 8, 9, 10, 11], 1),
        PushResult::Truncated { frames_dropped: 1 }
    );
    let m = ring.metrics();
    assert_eq!(m.drops, 1);
    assert_eq!(m.byte_count, 6);
    assert_eq!(m.frame_count, 1);
}

#[test]
fn caps_hold_after_many_pushes() {
    let mut ring = RingBuffer::new(16, 4);
    for i in 0..50u64 {
        let len = (i % 7) as usize + 1;
        ring.push_at(vec![i as u8; len], i);
        let m = ring.metrics();
        assert!(m.byte_count <= 16);
        assert!(m.frame_count <= 4);
        let total: usize = ring.get_all().iter().map(|f| f.data.len()).sum();
        assert_eq!(total, m.byte_count);
    }
    assert_eq!(ring.current_seq(), 49);
}

#[test]
fn drain_since_is_ordered_bounded_and_above_watermark() {
    let mut ring = RingBuffer::new(1024, 100);
    for i in 0..20u8 {
        ring.push_at(vec![i], 0);
    }
    let frames = ring.drain_since(5, 4);
    let seqs: Vec<u64> = frames.iter().map(|f| f.seq).collect();
    assert_eq!(seqs, vec![6, 7, 8, 9]);
    assert_eq!(ring.drain_since(18, 10).len(), 1);
    assert!(ring.drain_since(19, 10).is_empty());
    assert!(ring.drain_since(0, 0).is_empty());
}

#[test]
fn oversized_frame_evicts_everything_and_stays() {
    let mut ring = RingBuffer::new(4, 10);
    ring.push_at(vec![1, 2], 0);
    ring.push_at(vec![3], 0);
    let r = ring.push_at(vec![9; 8], 0);
    assert_eq!(r, PushResult::Truncated { frames_dropped: 2 });
    assert_eq!(ring.get_all().len(), 1);
    assert_eq!(ring.metrics().byte_count, 8);
}

#[test]
fn truncation_notice_due_again_after_a_second() {
    let mut ring = RingBuffer::new(1, 1);
    ring.push_at(vec![1], 0);
    assert_eq!(ring.push_at(vec![2], 10), PushResult::Truncated { frames_dropped: 1 });
    assert_eq!(ring.push_at(vec![3], 500), PushResult::Stored);
    assert_eq!(ring.push_at(vec![4], 1010), PushResult::Truncated { frames_dropped: 1 });
    assert_eq!(ring.metrics().truncations, 2);
    assert_eq!(ring.metrics().drops, 3);
}

#[test]
fn clear_keeps_sequence_numbers() {
    let mut ring = RingBuffer::new(100, 10);
    ring.push_at(vec![1, 2], 0);
    ring.push_at(vec![3], 0);
    ring.clear();
    assert!(ring.get_all().is_empty());
    assert_eq!(ring.metrics().byte_count, 0);
    ring.push_at(vec![4], 0);
    assert_eq!(ring.get_all()[0].seq, 2);
    assert_eq!(ring.metrics().current_seq, 3);
}
