use neural_os::config::WAIT_QUEUE;
use neural_os::ipc::{Endpoint, EndpointTable, IpcError, Message, WaitQueue};

#[test]
fn wait_queue_is_fifo() {
    let mut q = WaitQueue::new();
    assert!(q.is_empty());
    q.push(3).unwrap();
    q.push(5).unwrap();
    q.push(4).unwrap();
    assert_eq!(q.len(), 3);
    assert_eq!(q.pop(), Some(3));
    assert_eq!(q.pop(), Some(5));
    assert_eq!(q.pop(), Some(4));
    assert_eq!(q.pop(), None);
}

#[test]
fn wait_queue_refuses_when_full() {
    let mut q = WaitQueue::new();
    for t in 0..WAIT_QUEUE {
        assert_eq!(q.push(t), Ok(()));
    }
    assert_eq!(q.push(99), Err(IpcError::QueueFull));
    assert_eq!(q.len(), WAIT_QUEUE);
    assert_eq!(q.pop(), Some(0));
}

#[test]
fn wait_queue_remove_keeps_order() {
    let mut q = WaitQueue::new();
    for t in [1, 2, 1, 3] {
        q.push(t).unwrap();
    }
    q.remove(1);
    assert!(!q.contains(1));
    assert!(q.contains(2));
    assert_eq!(q.pop(), Some(2));
    assert_eq!(q.pop(), Some(3));
    assert_eq!(q.pop(), None);
}

#[test]
fn revoke_bumps_generation_and_drops_waiters() {
    let mut e = Endpoint::new();
    e.used = true;
    e.enqueue_sender(4).unwrap();
    e.enqueue_receiver(5).unwrap();
    e.revoke();
    assert!(!e.used);
    assert_eq!(e.generation, 1);
    assert_eq!(e.pop_sender(), None);
    assert_eq!(e.pop_receiver(), None);
    e.generation = u32::MAX;
    e.revoke();
    assert_eq!(e.generation, 0);
}

#[test]
fn cancel_removes_thread_from_both_queues() {
    let mut e = Endpoint::new();
    e.enqueue_sender(2).unwrap();
    e.enqueue_sender(7).unwrap();
    e.enqueue_receiver(7).unwrap();
    e.cancel(7);
    assert_eq!(e.pop_sender(), Some(2));
    assert_eq!(e.pop_sender(), None);
    assert_eq!(e.pop_receiver(), None);
}

#[test]
fn endpoint_table_allocates_from_one() {
    let mut t = EndpointTable::new();
    assert_eq!(t.allocate(), Ok(1));
    assert_eq!(t.allocate(), Ok(2));
    assert!(t.get(1).is_ok());
    assert_eq!(t.get(0).err(), Some(IpcError::BadEndpoint));
    assert_eq!(t.get(3).err(), Some(IpcError::BadEndpoint));
    assert_eq!(t.get(100).err(), Some(IpcError::BadEndpoint));
    for _ in 3..16 {
        t.allocate().unwrap();
    }
    assert_eq!(t.allocate(), Err(IpcError::Full));
    t.get_mut(2).unwrap().revoke();
    assert_eq!(t.allocate(), Ok(2));
    assert_eq!(t.slots[2].generation, 1);
}

#[test]
fn message_layout() {
    let m = Message::new(3, 10, 20, 30);
    assert_eq!(m.sender, 3);
    assert_eq!(m.words, [10, 20, 30]);
    assert_eq!(Message::empty(), Message::new(0, 0, 0, 0));
}
