use fractal_curves::ring_buffer::RingBuffer;

#[test]
fn ring_buffer_iter() {
    let mut rb = RingBuffer::new(10);
    rb.push(1);
    rb.push(2);
    let mut iter = rb.iter();
    assert_eq!(iter.next(), Some(&1));
    assert_eq!(iter.next(), Some(&2));
    assert_eq!(iter.next(), None);
}

#[test]
fn ring_buffer_iter_overwrite() {
    let mut rb = RingBuffer::new(3);
    rb.push(1);
    rb.push(2);
    rb.push(3);
    rb.push(4);

    let mut iter = rb.iter();
    assert_eq!(iter.next(), Some(&2));
    assert_eq!(iter.next(), Some(&3));
    assert_eq!(iter.next(), Some(&4));
    assert_eq!(iter.next(), None);
}

#[test]
fn ring_buffer_from_iter() {
    let rb = (0..10).collect::<Vec<_>>();
    let rb = RingBuffer::from_vec(rb);
    assert_eq!(rb.size(), 10)
}

#[test]
fn ring_buffer_iter_mut() {
    let mut rb = RingBuffer::new(10);
    rb.push(1);
    rb.push(2);
    rb.push(3);
    let mut iter = rb.iter_mut();
    let i = iter.next_index(&rb).unwrap();
    assert_eq!(*rb.get(i), 1);
    let i = iter.next_index(&rb).unwrap();
    assert_eq!(*rb.get(i), 2);

    let z = 20;
    if let Some(i) = iter.next_index(&rb) {
        rb.set(i, z);
    }

    assert_eq!(rb.pop(), Some(20))
}

#[test]
fn index() {
    let mut rb = RingBuffer::new(10);
    rb.push(1);
    rb.push(2);
    rb.push(3);
    assert_eq!(*rb.get(0), 1);
    assert_eq!(*rb.get(1), 2);
    assert_eq!(*rb.get(2), 3);
    assert_eq!(*rb.get(3), 1); // wraps back around
}

#[test]
fn index_on_wrapped() {
    let mut rb = RingBuffer::new(2);
    rb.push(1);
    rb.push(2);
    rb.push(3);
    assert_eq!(*rb.get(0), 2);
    assert_eq!(*rb.get(1), 3);
    assert_eq!(*rb.get(2), 2);
}

#[test]
fn push_reports_eviction() {
    let mut rb = RingBuffer::new(2);
    assert_eq!(rb.push(1), None);
    assert_eq!(rb.push(2), None);
    assert_eq!(rb.push(3), Some(1));
    assert_eq!(rb.push(4), Some(2));
    assert_eq!(rb.occupied(), 2);
    assert_eq!(rb.first(), Some(&3));
    assert_eq!(rb.last(), Some(&4));
}

#[test]
fn first_and_last_on_empty() {
    let rb: RingBuffer<u32> = RingBuffer::new(4);
    assert_eq!(rb.first(), None);
    assert_eq!(rb.last(), None);
    assert_eq!(rb.occupied(), 0);
}

#[test]
fn clear_keeps_capacity() {
    let mut rb = RingBuffer::new(3);
    rb.push(7);
    rb.push(8);
    rb.clear();
    assert_eq!(rb.occupied(), 0);
    assert_eq!(rb.size(), 3);
    assert_eq!(rb.pop(), None);
}

#[test]
fn retain_keeps_matching_in_order() {
    let mut rb = RingBuffer::from_vec(vec![1, 2, 3, 4, 5, 6]);
    rb.retain(|x: &i32| *x % 2 == 0);
    assert_eq!(rb.occupied(), 3);
    let mut iter = rb.iter();
    assert_eq!(iter.next(), Some(&2));
    assert_eq!(iter.next(), Some(&4));
    assert_eq!(iter.next(), Some(&6));
    assert_eq!(iter.next(), None);
}

#[test]
fn into_iter_drains_single_element() {
    let mut rb = RingBuffer::new(4);
    rb.push(10);
    let mut iter = rb.into_iter();
    assert_eq!(iter.next(), Some(10));
    assert_eq!(iter.next(), None);
}
