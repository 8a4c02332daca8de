use reactor::utils::{DrainStatus, OutQueue};

/// Simulates one write attempt of the head remainder against a sink that
/// takes at most `cap` bytes, and returns the bytes "sent".
fn take_from_head(q: &OutQueue, cap: usize) -> Vec<u8> {
    let head = q.front().expect("queue must not be empty").clone();
    let off = q.offset();
    let remaining = &head[off..];
    let n = remaining.len().min(cap);
    remaining[..n].to_vec()
}

#[test]
fn outqueue_complete_write_stores_nothing() {
    let mut q = OutQueue::new();
    assert!(q.is_empty());
    // The sink took the whole buffer: nothing is queued.
    assert!(q.write(b"hello".to_vec(), 5));
    assert!(q.is_empty());
    // An empty buffer is trivially complete.
    assert!(q.write(Vec::new(), 0));
    assert!(q.is_empty());
}

#[test]
fn outqueue_short_write_queues_remainder() {
    let mut q = OutQueue::new();
    assert!(!q.write(b"hello".to_vec(), 2));
    assert!(!q.is_empty());
    assert_eq!(q.front().unwrap().as_slice(), b"hello");
    assert_eq!(q.offset(), 2);
    // Another buffer while backed up: no immediate write, everything queued.
    assert!(!q.write(b" world".to_vec(), 0));

    // Drain: the sink takes three bytes, finishing the head.
    assert_eq!(q.drain(3), DrainStatus::Busy);
    assert_eq!(q.offset(), 0);
    assert_eq!(q.front().unwrap().as_slice(), b" world");
    // A sink that takes nothing stops the drain.
    assert_eq!(q.drain(0), DrainStatus::NotWritable);
    assert_eq!(q.front().unwrap().as_slice(), b" world");
    // The rest goes out in two steps.
    assert_eq!(q.drain(4), DrainStatus::Busy);
    assert_eq!(q.offset(), 4);
    assert_eq!(q.drain(2), DrainStatus::Empty);
    assert!(q.is_empty());
}

#[test]
fn outqueue_backpressured_megabyte_no_loss_no_duplication() {
    // One mebibyte of patterned data written into a sink that reads slowly:
    // at most 4093 bytes per attempt, stalling every seventh attempt.
    let total: usize = 1 << 20;
    let data: Vec<u8> = (0..total).map(|i| (i.wrapping_mul(31).wrapping_add(7)) as u8).collect();

    let mut q = OutQueue::new();
    let mut sent: Vec<u8> = Vec::new();

    // The first immediate attempt takes 100 bytes.
    let first = take_from_head_of(&data, 0, 100);
    sent.extend_from_slice(&first);
    assert!(!q.write(data.clone(), first.len()));

    let mut attempt: usize = 0;
    loop {
        attempt += 1;
        if attempt % 7 == 0 {
            // The sink stalls; the drain stops and writable interest would
            // be re-armed. The queue is untouched.
            assert_eq!(q.drain(0), DrainStatus::NotWritable);
            continue;
        }
        let chunk = take_from_head(&q, 4093);
        sent.extend_from_slice(&chunk);
        match q.drain(chunk.len()) {
            DrainStatus::Empty => break,
            DrainStatus::Busy => {}
            DrainStatus::NotWritable => panic!("nonzero write reported NotWritable"),
        }
    }

    assert!(q.is_empty());
    assert_eq!(sent.len(), total);
    assert_eq!(sent, data);
}

fn take_from_head_of(data: &[u8], off: usize, cap: usize) -> Vec<u8> {
    let n = (data.len() - off).min(cap);
    data[off..off + n].to_vec()
}

#[test]
fn outqueue_interleaved_writes_keep_order() {
    let mut q = OutQueue::new();
    assert!(!q.write(b"abc".to_vec(), 1));
    assert!(!q.write(b"def".to_vec(), 0));
    let mut sent: Vec<u8> = Vec::new();
    loop {
        let chunk = take_from_head(&q, 2);
        sent.extend_from_slice(&chunk);
        match q.drain(chunk.len()) {
            DrainStatus::Empty => break,
            DrainStatus::Busy => {}
            DrainStatus::NotWritable => panic!("nonzero write reported NotWritable"),
        }
    }
    assert_eq!(sent, b"bcdef".to_vec());
}

#[test]
fn outqueue_drain_on_empty_queue_is_a_quiet_no_op() {
    let mut q = OutQueue::new();
    assert_eq!(q.drain(0), DrainStatus::Empty);
    // Repeated drains of an empty queue stay no-ops.
    assert_eq!(q.drain(0), DrainStatus::Empty);
    assert!(q.is_empty());
}
