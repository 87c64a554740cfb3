use makebeliv::RingBuffer;

#[test]
fn push_then_take_round_trips() {
    let mut buffer = RingBuffer::new(8);
    buffer.push(&[1, 2, 3]);
    assert_eq!(buffer.len(), 3);
    let out = buffer.take(3);
    assert_eq!(out, vec![1, 2, 3]);
    assert_eq!(buffer.len(), 0);
}

#[test]
fn take_is_fifo_across_pushes() {
    let mut buffer = RingBuffer::new(8);
    buffer.push(&[10, 11]);
    buffer.push(&[12, 13]);
    let first = buffer.take(3);
    assert_eq!(first, vec![10, 11, 12]);
    let second = buffer.take(1);
    assert_eq!(second, vec![13]);
}

#[test]
fn overflowing_push_keeps_newest_samples() {
    let mut buffer = RingBuffer::new(4);
    buffer.push(&[1, 2, 3, 4, 5, 6]);
    assert_eq!(buffer.len(), 4);
    assert_eq!(buffer.take(4), vec![3, 4, 5, 6]);
}

#[test]
fn overflow_evicts_oldest_first() {
    let mut buffer = RingBuffer::new(4);
    buffer.push(&[1, 2, 3]);
    buffer.push(&[4, 5]);
    assert_eq!(buffer.take(4), vec![2, 3, 4, 5]);
}

#[test]
fn short_take_returns_empty_and_leaves_buffer() {
    let mut buffer = RingBuffer::new(8);
    buffer.push(&[1, 2]);
    let out = buffer.take(5);
    assert!(out.is_empty());
    assert_eq!(buffer.len(), 2);
    assert_eq!(buffer.take(2), vec![1, 2]);
}

#[test]
fn length_never_exceeds_capacity() {
    let mut buffer = RingBuffer::new(5);
    assert_eq!(buffer.capacity(), 5);
    for round in 0..50u32 {
        buffer.push(&[round, round + 1, round + 2]);
        assert!(buffer.len() <= 5);
        let _ = buffer.take((round % 4) as usize);
        assert!(buffer.len() <= 5);
    }
}

#[test]
fn interleaved_pushes_and_takes_keep_order() {
    // One producer role and one consumer role, serialized as the buffer's
    // lock would serialize them: every sample comes out once, in order,
    // because the capacity is never exceeded here.
    let mut buffer = RingBuffer::new(64);
    let mut produced: Vec<u32> = Vec::new();
    let mut consumed: Vec<u32> = Vec::new();
    let mut next: u32 = 0;
    for round in 0..40u32 {
        let batch: Vec<u32> = (next..next + 3).collect();
        next += 3;
        produced.extend_from_slice(&batch);
        buffer.push(&batch);
        if round % 2 == 1 {
            consumed.extend_from_slice(&buffer.take(4));
        }
    }
    consumed.extend_from_slice(&buffer.take(buffer.len()));
    assert_eq!(consumed, produced);
}

#[test]
fn clear_drops_everything() {
    let mut buffer = RingBuffer::new(4);
    buffer.push(&[9, 9, 9]);
    buffer.clear();
    assert_eq!(buffer.len(), 0);
    assert!(buffer.take(1).is_empty());
}

#[test]
fn zero_capacity_buffer_stays_empty() {
    let mut buffer = RingBuffer::new(0);
    buffer.push(&[1, 2, 3]);
    assert_eq!(buffer.len(), 0);
}
