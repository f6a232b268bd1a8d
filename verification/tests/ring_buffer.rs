use kapital_rust::int_buffer::RingBufferI64;
use kapital_rust::ring::RingBuffer;
use kapital_rust::ring::RingBufferError;

#[test]
fn zero_capacity_is_rejected() {
    match RingBufferI64::new(0) {
        Err(e) => assert_eq!(e, RingBufferError::InvalidCapacity),
        Ok(_) => panic!("capacity 0 must be rejected"),
    }
}

#[test]
fn positive_capacity_starts_empty() {
    let buffer = RingBufferI64::new(5).unwrap();
    assert_eq!(buffer.py_len(), 0);
    assert!(!buffer.is_full());
    assert_eq!(buffer.capacity(), 5);
    assert_eq!(buffer.snapshot(), Vec::<i64>::new());

    let mut tiny = RingBufferI64::new(1).unwrap();
    assert!(!tiny.is_full());
    tiny.push(42);
    assert!(tiny.is_full());
}

#[test]
fn pushes_within_capacity_keep_everything() {
    let mut buffer = RingBufferI64::new(5).unwrap();
    buffer.push(1);
    buffer.push(2);
    buffer.push(3);
    assert_eq!(buffer.py_len(), 3);
    assert!(!buffer.is_full());
    assert_eq!(buffer.snapshot(), vec![1, 2, 3]);

    let mut exact = RingBufferI64::new(3).unwrap();
    exact.push(7);
    exact.push(8);
    exact.push(9);
    assert_eq!(exact.py_len(), 3);
    assert!(exact.is_full());
    assert_eq!(exact.snapshot(), vec![7, 8, 9]);
}

#[test]
fn pushes_beyond_capacity_keep_the_last() {
    let mut buffer = RingBufferI64::new(3).unwrap();
    for value in [11, 22, 33, 44, 55, 66, 77] {
        buffer.push(value);
    }
    assert_eq!(buffer.py_len(), 3);
    assert!(buffer.is_full());
    assert_eq!(buffer.snapshot(), vec![55, 66, 77]);
}

#[test]
fn extend_matches_individual_pushes() {
    for input in [
        Vec::<i64>::new(),
        vec![1, 2],
        vec![1, 2, 3],
        vec![1, 2, 3, 4, 5, 6, 7],
    ] {
        let mut batched = RingBufferI64::new(3).unwrap();
        batched.push(100);
        batched.extend(input.clone());

        let mut stepped = RingBufferI64::new(3).unwrap();
        stepped.push(100);
        for value in input.iter() {
            stepped.push(*value);
        }

        assert_eq!(batched.snapshot(), stepped.snapshot());
        assert_eq!(batched.py_len(), stepped.py_len());
        assert_eq!(batched.is_full(), stepped.is_full());
        assert_eq!(batched.capacity(), stepped.capacity());
    }
}

#[test]
fn clear_resets_regardless_of_prior_state() {
    let mut buffer = RingBufferI64::new(3).unwrap();
    buffer.extend(vec![1, 2, 3, 4, 5]);
    assert!(buffer.is_full());
    buffer.clear();
    assert_eq!(buffer.snapshot(), Vec::<i64>::new());
    assert_eq!(buffer.py_len(), 0);
    assert!(!buffer.is_full());
    assert_eq!(buffer.capacity(), 3);

    buffer.push(9);
    assert_eq!(buffer.snapshot(), vec![9]);
}

#[test]
fn snapshots_are_independent_of_the_buffer() {
    let mut buffer = RingBufferI64::new(3).unwrap();
    buffer.push(1);
    buffer.push(2);

    let mut first = buffer.snapshot();
    first.push(999);
    first[0] = -1;
    assert_eq!(buffer.snapshot(), vec![1, 2]);

    let second = buffer.snapshot();
    buffer.push(3);
    buffer.push(4);
    assert_eq!(second, vec![1, 2]);
    assert_eq!(buffer.snapshot(), vec![2, 3, 4]);
}

#[test]
fn capacity_three_five_pushes() {
    let mut buffer = RingBufferI64::new(3).unwrap();
    for value in [1, 2, 3, 4, 5] {
        buffer.push(value);
    }
    assert_eq!(buffer.snapshot(), vec![3, 4, 5]);
    assert_eq!(buffer.py_len(), 3);
    assert!(buffer.is_full());
}

#[test]
fn capacity_four_two_pushes() {
    let mut buffer = RingBufferI64::new(4).unwrap();
    buffer.push(10);
    buffer.push(20);
    assert_eq!(buffer.snapshot(), vec![10, 20]);
    assert_eq!(buffer.py_len(), 2);
    assert!(!buffer.is_full());
}

#[test]
fn capacity_two_extend_five() {
    let mut buffer = RingBufferI64::new(2).unwrap();
    buffer.extend(vec![1, 2, 3, 4, 5]);
    assert_eq!(buffer.snapshot(), vec![4, 5]);
}

#[test]
fn capacity_one_keeps_only_the_newest() {
    let mut buffer = RingBufferI64::new(1).unwrap();
    buffer.push(7);
    buffer.push(9);
    assert_eq!(buffer.snapshot(), vec![9]);
    assert_eq!(buffer.py_len(), 1);
}

#[test]
fn iter_is_an_alias_of_snapshot() {
    let mut buffer = RingBufferI64::new(2).unwrap();
    buffer.extend(vec![5, 6, 7]);
    assert_eq!(buffer.iter(), buffer.snapshot());
    assert_eq!(buffer.iter(), vec![6, 7]);
}

#[test]
fn generic_buffer_works_for_floats() {
    let mut buffer: RingBuffer<f64> = RingBuffer::new(2, 0.0).unwrap();
    buffer.push(1.5);
    buffer.push(2.5);
    buffer.push(3.5);
    assert_eq!(buffer.snapshot_vec(), vec![2.5, 3.5]);
    assert_eq!(buffer.len(), 2);
    assert!(buffer.is_full());
    buffer.clear();
    assert_eq!(buffer.len(), 0);
    assert!(!buffer.is_full());
    assert_eq!(buffer.capacity(), 2);
}

#[test]
fn generic_buffer_rejects_zero_capacity() {
    match RingBuffer::<i64>::new(0, 0) {
        Err(e) => assert_eq!(e, RingBufferError::InvalidCapacity),
        Ok(_) => panic!("capacity 0 must be rejected"),
    }
}

#[test]
fn generic_extend_from_slice_wraps() {
    let mut buffer: RingBuffer<i64> = RingBuffer::new(4, 0).unwrap();
    buffer.extend_from_slice(&[1, 2]);
    assert_eq!(buffer.snapshot_vec(), vec![1, 2]);
    buffer.extend_from_slice(&[3, 4, 5, 6, 7]);
    assert_eq!(buffer.snapshot_vec(), vec![4, 5, 6, 7]);
    assert!(buffer.is_full());
}
