use gallery::preload_queue::{PreloadQueue, CAPACITY};

#[test]
fn a_new_queue_is_empty() {
    let mut queue = PreloadQueue::new();
    assert_eq!(CAPACITY, 16);
    assert!(queue.is_empty());
    assert!(!queue.is_full());
    assert_eq!(queue.len(), 0);
    assert_eq!(queue.dequeue(), None);
}

#[test]
fn the_seventeenth_request_waits_for_room() {
    let mut queue = PreloadQueue::new();
    let mut waiting: Vec<usize> = Vec::new();
    for request in 100..120usize {
        if let Err(back) = queue.try_enqueue(request) {
            waiting.push(back);
        }
    }
    assert_eq!(queue.len(), 16);
    assert!(queue.is_full());
    assert_eq!(waiting, vec![116, 117, 118, 119]);

    assert_eq!(queue.try_enqueue(116), Err(116));
    assert_eq!(queue.dequeue(), Some(100));
    assert!(!queue.is_full());
    assert_eq!(queue.try_enqueue(116), Ok(()));
    assert!(queue.is_full());
    assert_eq!(queue.try_enqueue(117), Err(117));

    let mut served: Vec<usize> = Vec::new();
    while let Some(request) = queue.dequeue() {
        served.push(request);
    }
    assert_eq!(served, (101..117).collect::<Vec<usize>>());
    assert!(queue.is_empty());
}

#[test]
fn requests_leave_in_the_order_they_came() {
    let mut queue = PreloadQueue::new();
    for request in [3usize, 1, 3, 2] {
        assert_eq!(queue.try_enqueue(request), Ok(()));
    }
    assert_eq!(queue.len(), 4);
    assert_eq!(queue.dequeue(), Some(3));
    assert_eq!(queue.try_enqueue(9), Ok(()));
    assert_eq!(queue.dequeue(), Some(1));
    assert_eq!(queue.dequeue(), Some(3));
    assert_eq!(queue.dequeue(), Some(2));
    assert_eq!(queue.dequeue(), Some(9));
    assert_eq!(queue.dequeue(), None);
}
