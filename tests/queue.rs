use flowstt::queue::{CompleteError, EnqueueError, QueuedSegment, TranscriptionQueue};

fn seg(seq: u64) -> QueuedSegment {
    QueuedSegment { samples: vec![seq as i16; 4], seq }
}

#[test]
fn out_of_order_arrivals_complete_in_order() {
    let mut q = TranscriptionQueue::new(10);
    for s in [3u64, 1, 5, 2, 4] {
        q.enqueue(seg(s)).unwrap();
    }
    assert_eq!(q.depth(), 5);
    let mut delivered = Vec::new();
    while let Some(s) = q.start_next() {
        assert_eq!(s.samples, vec![s.seq as i16; 4]);
        delivered.push(s.seq);
        q.complete(s.seq).unwrap();
    }
    assert_eq!(delivered, vec![1, 2, 3, 4, 5]);
    assert_eq!(q.depth(), 0);
}

#[test]
fn at_most_one_segment_in_flight() {
    let mut q = TranscriptionQueue::new(4);
    q.enqueue(seg(1)).unwrap();
    q.enqueue(seg(2)).unwrap();
    let mut in_flight = 0;
    let first = q.start_next().unwrap();
    in_flight += 1;
    assert!(q.start_next().is_none());
    assert_eq!(q.in_flight(), Some(1));
    assert!(in_flight <= 1);
    q.complete(first.seq).unwrap();
    in_flight -= 1;
    let second = q.start_next().unwrap();
    in_flight += 1;
    assert!(in_flight <= 1);
    assert_eq!(second.seq, 2);
}

#[test]
fn full_queue_rejects() {
    let mut q = TranscriptionQueue::new(2);
    q.enqueue(seg(1)).unwrap();
    q.enqueue(seg(2)).unwrap();
    assert_eq!(q.enqueue(seg(3)), Err(EnqueueError::Full));
    assert_eq!(q.depth(), 2);
}

#[test]
fn duplicate_or_stale_sequence_rejects() {
    let mut q = TranscriptionQueue::new(5);
    q.enqueue(seg(2)).unwrap();
    assert_eq!(q.enqueue(seg(2)), Err(EnqueueError::OutOfOrder));
    let s = q.start_next().unwrap();
    assert_eq!(s.seq, 2);
    assert_eq!(q.enqueue(seg(1)), Err(EnqueueError::OutOfOrder));
    assert_eq!(q.enqueue(seg(2)), Err(EnqueueError::OutOfOrder));
    assert_eq!(q.enqueue(seg(3)), Ok(()));
}

#[test]
fn completion_of_unknown_segment_is_refused() {
    let mut q = TranscriptionQueue::new(5);
    assert_eq!(q.complete(1), Err(CompleteError::NotInFlight));
    q.enqueue(seg(1)).unwrap();
    q.start_next().unwrap();
    assert_eq!(q.complete(2), Err(CompleteError::NotInFlight));
    assert_eq!(q.complete(1), Ok(()));
    assert_eq!(q.in_flight(), None);
}

#[test]
fn discard_drops_pending_but_not_in_flight() {
    let mut q = TranscriptionQueue::new(5);
    for s in 1..=3u64 {
        q.enqueue(seg(s)).unwrap();
    }
    q.start_next().unwrap();
    assert_eq!(q.discard_pending(), 2);
    assert_eq!(q.depth(), 0);
    assert_eq!(q.in_flight(), Some(1));
}
