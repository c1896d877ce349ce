use conetty::queue::{BatchCursor, BATCH_MAX};
use conetty::WriteQueue;

#[test]
fn first_producer_becomes_the_writer() {
    let mut q = WriteQueue::new();
    assert!(q.push(vec![1]));
    assert!(!q.push(vec![2]));
    let batch = q.take_batch();
    assert_eq!(batch, vec![vec![1], vec![2]]);
    assert!(!q.finish_batch());
    assert!(q.push(vec![3]));
}

#[test]
fn writes_reach_the_wire_whole_and_in_order() {
    let mut q = WriteQueue::new();
    let mut wire = Vec::new();
    let mut expected = Vec::new();
    for i in 0..150u32 {
        let data = vec![i as u8; (i % 5 + 1) as usize];
        expected.extend_from_slice(&data);
        q.push(data);
    }
    loop {
        let batch = q.take_batch();
        assert!(batch.len() <= BATCH_MAX);
        for v in batch {
            wire.extend(v);
        }
        if !q.finish_batch() {
            break;
        }
    }
    assert_eq!(wire, expected);
}

#[test]
fn batches_hold_at_most_the_limit() {
    let mut q = WriteQueue::new();
    for i in 0..100u8 {
        q.push(vec![i]);
    }
    assert_eq!(q.take_batch().len(), BATCH_MAX);
    assert!(q.finish_batch());
    assert_eq!(q.take_batch().len(), 100 - BATCH_MAX);
    assert!(!q.finish_batch());
}

#[test]
fn cursor_resumes_after_partial_writes() {
    let batch = vec![vec![1u8, 2, 3], Vec::new(), vec![4u8], vec![5u8, 6]];
    let mut c = BatchCursor::new(&batch);
    assert_eq!(c.position(), (0, 0));
    c.advance(&batch, 2);
    assert_eq!(c.position(), (0, 2));
    c.advance(&batch, 1);
    assert_eq!(c.position(), (2, 0));
    assert!(!c.is_done(&batch));
    c.advance(&batch, 2);
    assert_eq!(c.position(), (3, 1));
    c.advance(&batch, 10);
    assert!(c.is_done(&batch));
}

#[test]
fn cursor_over_empty_vectors_is_done() {
    let batch: Vec<Vec<u8>> = vec![Vec::new(), Vec::new()];
    let c = BatchCursor::new(&batch);
    assert!(c.is_done(&batch));
    let none: Vec<Vec<u8>> = Vec::new();
    assert!(BatchCursor::new(&none).is_done(&none));
}
