use echo_session::queue::{BoundedQueue, SendRefused, CHANNEL_CAPACITY};

#[test]
fn queue_fifo_order() {
    let mut q = BoundedQueue::new();
    assert_eq!(q.len(), 0);
    assert_eq!(q.recv(), None);
    assert_eq!(q.try_send("first".to_string()), Ok(()));
    assert_eq!(q.try_send("second".to_string()), Ok(()));
    assert_eq!(q.try_send("third".to_string()), Ok(()));
    assert_eq!(q.len(), 3);
    assert_eq!(q.recv().as_deref(), Some("first"));
    assert_eq!(q.recv().as_deref(), Some("second"));
    assert_eq!(q.recv().as_deref(), Some("third"));
    assert_eq!(q.recv(), None);
}

#[test]
fn queue_refuses_when_full() {
    let mut q = BoundedQueue::new();
    for i in 0..CHANNEL_CAPACITY {
        assert_eq!(q.try_send(format!("msg {}", i)), Ok(()));
    }
    assert_eq!(q.len(), CHANNEL_CAPACITY);
    assert_eq!(q.try_send("overflow".to_string()), Err(SendRefused::Full));
    assert_eq!(q.len(), CHANNEL_CAPACITY);
    assert_eq!(q.recv().as_deref(), Some("msg 0"));
    assert_eq!(q.len(), CHANNEL_CAPACITY - 1);
}

#[test]
fn queue_capacity_is_thirty_two() {
    assert_eq!(CHANNEL_CAPACITY, 32);
}
