use ironsign::fifo_queue::FifoQueue;

#[test]
fn items_leave_in_arrival_order() {
    let mut queue: FifoQueue<u32> = FifoQueue::with_capacity(2);
    for item in 0..5 {
        queue.push(item);
    }
    assert_eq!(queue.len(), 5);
    for item in 0..5 {
        assert_eq!(queue.pop_next(), Some(item));
    }
    assert_eq!(queue.pop_next(), None);
}

#[test]
fn a_new_queue_is_empty() {
    let mut queue: FifoQueue<String> = FifoQueue::with_capacity(0);
    assert!(queue.is_empty());
    assert_eq!(queue.len(), 0);
    assert_eq!(queue.pop_next(), None);
    queue.push("one".to_string());
    assert!(!queue.is_empty());
}

#[test]
fn pushing_and_popping_can_alternate() {
    let mut queue: FifoQueue<u8> = FifoQueue::with_capacity(1);
    queue.push(1);
    queue.push(2);
    assert_eq!(queue.pop_next(), Some(1));
    queue.push(3);
    assert_eq!(queue.pop_next(), Some(2));
    assert_eq!(queue.pop_next(), Some(3));
    assert!(queue.is_empty());
}

#[test]
fn a_capacity_is_only_a_hint() {
    let mut queue: FifoQueue<u64> = FifoQueue::with_capacity(usize::MAX);
    queue.push(9);
    assert_eq!(queue.pop_next(), Some(9));
}

#[test]
fn a_clone_is_a_queue_of_its_own() {
    let mut queue: FifoQueue<u8> = FifoQueue::with_capacity(2);
    queue.push(1);
    let mut copy = queue.clone();
    assert_eq!(queue.pop_next(), Some(1));
    assert_eq!(copy.len(), 1);
    assert_eq!(copy.pop_next(), Some(1));
}
