use shared_serve::{
    slot_offset, Header, Operation, QueueError, Request, RequestQueue, Ticket, CAPACITY,
    HEADER_SIZE, REQUEST_SIZE, SHARED_MEMORY_SIZE,
};

fn numbered(i: usize) -> Request {
    Request::new(Operation::INSERT, &format!("key{}", i), &format!("value{}", i))
}

#[test]
fn segment_layout() {
    assert_eq!(CAPACITY, 10);
    assert_eq!(HEADER_SIZE, 16);
    assert_eq!(REQUEST_SIZE, 1 + 64 + 256);
    assert_eq!(SHARED_MEMORY_SIZE, 16 + 321 * 10);
    assert_eq!(slot_offset(0), 16);
    assert_eq!(slot_offset(1), 337);
    assert_eq!(slot_offset(9), 16 + 9 * 321);
}

#[test]
fn new_header_is_empty() {
    let header = Header::new();
    assert_eq!(header.read_index, 0);
    assert_eq!(header.write_index, 0);
    assert!(header.is_valid());
    assert!(header.is_empty());
    assert!(!header.is_full());
    assert_eq!(header.len(), 0);
}

#[test]
fn header_with_an_index_out_of_range_is_not_valid() {
    assert!(!Header { read_index: 10, write_index: 0 }.is_valid());
    assert!(!Header { read_index: 0, write_index: 10 }.is_valid());
    assert!(Header { read_index: 9, write_index: 9 }.is_valid());
}

#[test]
fn header_length_wraps_around() {
    assert_eq!(Header { read_index: 2, write_index: 7 }.len(), 5);
    assert_eq!(Header { read_index: 7, write_index: 2 }.len(), 5);
    assert_eq!(Header { read_index: 9, write_index: 0 }.len(), 1);
    assert_eq!(Header { read_index: 0, write_index: 9 }.len(), 9);
    assert_eq!(Header { read_index: 4, write_index: 3 }.len(), 9);
}

#[test]
fn plan_enqueue_gives_slot_and_next_index() {
    let header = Header { read_index: 0, write_index: 3 };
    assert_eq!(header.plan_enqueue(), Ok(Ticket { slot: 3, next: 4 }));
    let header = Header { read_index: 5, write_index: 9 };
    assert_eq!(header.plan_enqueue(), Ok(Ticket { slot: 9, next: 0 }));
}

#[test]
fn plan_enqueue_on_full_ring_fails() {
    let header = Header { read_index: 0, write_index: 9 };
    assert!(header.is_full());
    assert_eq!(header.plan_enqueue(), Err(QueueError::QueueFull));
    let header = Header { read_index: 4, write_index: 3 };
    assert_eq!(header.plan_enqueue(), Err(QueueError::QueueFull));
}

#[test]
fn plan_dequeue_gives_slot_and_next_index() {
    let header = Header { read_index: 9, write_index: 3 };
    assert_eq!(header.plan_dequeue(), Ok(Ticket { slot: 9, next: 0 }));
    let header = Header { read_index: 2, write_index: 3 };
    assert_eq!(header.plan_dequeue(), Ok(Ticket { slot: 2, next: 3 }));
}

#[test]
fn plan_dequeue_on_empty_ring_fails() {
    let header = Header { read_index: 6, write_index: 6 };
    assert_eq!(header.plan_dequeue(), Err(QueueError::QueueEmpty));
}

#[test]
fn dequeue_order_is_enqueue_order() {
    let mut queue = RequestQueue::new();
    for i in 0..5 {
        assert_eq!(queue.enqueue(numbered(i)), Ok(()));
    }
    for i in 0..5 {
        let request = queue.dequeue().unwrap();
        assert_eq!(request.key_str(), format!("key{}", i));
        assert_eq!(request.value_str(), format!("value{}", i));
    }
    assert_eq!(queue.dequeue().unwrap_err(), QueueError::QueueEmpty);
}

#[test]
fn order_is_kept_across_the_wrap() {
    let mut queue = RequestQueue::new();
    let mut next_in = 0;
    let mut next_out = 0;
    for round in 0..7 {
        for _ in 0..(3 + round % 4) {
            if queue.enqueue(numbered(next_in)).is_ok() {
                next_in += 1;
            }
        }
        for _ in 0..(2 + round % 3) {
            if let Ok(request) = queue.dequeue() {
                assert_eq!(request.key_str(), format!("key{}", next_out));
                next_out += 1;
            }
        }
        assert_eq!(queue.len(), next_in - next_out);
        assert!(queue.len() < CAPACITY);
        assert!(queue.header().is_valid());
    }
    assert!(next_out > CAPACITY);
}

#[test]
fn ring_holds_capacity_minus_one_records() {
    let mut queue = RequestQueue::new();
    for i in 0..(CAPACITY - 1) {
        assert_eq!(queue.enqueue(numbered(i)), Ok(()));
    }
    assert_eq!(queue.len(), CAPACITY - 1);
    let before = queue.header();
    assert_eq!(queue.enqueue(numbered(99)), Err(QueueError::QueueFull));
    assert_eq!(queue.header(), before);
    assert_eq!(queue.len(), CAPACITY - 1);
    assert_eq!(queue.dequeue().unwrap().key_str(), "key0");
    assert_eq!(queue.enqueue(numbered(9)), Ok(()));
}

#[test]
fn dequeue_on_empty_ring_changes_nothing() {
    let mut queue = RequestQueue::new();
    assert_eq!(queue.dequeue().unwrap_err(), QueueError::QueueEmpty);
    assert_eq!(queue.header(), Header { read_index: 0, write_index: 0 });
    assert_eq!(queue.len(), 0);
}

#[test]
fn staged_record_is_invisible_until_published() {
    let mut queue = RequestQueue::new();
    assert_eq!(queue.enqueue(numbered(0)), Ok(()));
    let ticket = queue.stage(numbered(1)).unwrap();
    assert_eq!(ticket, Ticket { slot: 1, next: 2 });
    assert_eq!(queue.slot(1).key_str(), "key1");
    assert_eq!(queue.len(), 1);
    assert_eq!(queue.header(), Header { read_index: 0, write_index: 1 });
    assert_eq!(queue.dequeue().unwrap().key_str(), "key0");
    assert_eq!(queue.dequeue().unwrap_err(), QueueError::QueueEmpty);
    assert_eq!(queue.enqueue(Request::new(Operation::INSERT, "new_key", "new_value")), Ok(()));
    let request = queue.dequeue().unwrap();
    assert_eq!(request.key_str(), "new_key");
    assert_eq!(request.value_str(), "new_value");
}

#[test]
fn publish_hands_over_the_staged_record() {
    let mut queue = RequestQueue::new();
    queue.stage(numbered(7)).unwrap();
    queue.publish();
    assert_eq!(queue.len(), 1);
    assert_eq!(queue.header(), Header { read_index: 0, write_index: 1 });
    assert_eq!(queue.dequeue().unwrap().key_str(), "key7");
}

#[test]
fn stage_on_full_ring_fails() {
    let mut queue = RequestQueue::new();
    for i in 0..(CAPACITY - 1) {
        queue.enqueue(numbered(i)).unwrap();
    }
    assert_eq!(queue.stage(numbered(50)), Err(QueueError::QueueFull));
    assert_eq!(queue.slot(9).key_str(), "");
}

#[test]
fn new_ring_has_blank_slots() {
    let queue = RequestQueue::new();
    for i in 0..CAPACITY {
        let request = queue.slot(i);
        assert_eq!(request.operation, Operation::GET);
        assert_eq!(request.key_str(), "");
        assert_eq!(request.value_str(), "");
    }
}
