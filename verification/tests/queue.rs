use brain_b2b::queue::Queue;

#[test]
fn queue_is_first_in_first_out() {
    let mut q: Queue<u32> = Queue::new(3);
    assert_eq!(q.len(), 0);
    assert_eq!(q.push(1), None);
    assert_eq!(q.push(2), None);
    assert_eq!(q.push(3), None);
    assert_eq!(q.len(), 3);
    assert_eq!(q.push(4), Some(4));
    assert_eq!(q.take(), Some(1));
    assert_eq!(q.push(5), None);
    assert_eq!(q.take(), Some(2));
    assert_eq!(q.take(), Some(3));
    assert_eq!(q.take(), Some(5));
    assert_eq!(q.take(), None);
    assert_eq!(q.len(), 0);
}
