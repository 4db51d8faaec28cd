use shared_serve::{
    plan_server_step, Header, QueueError, ServerStep, Ticket, DEFAULT_BUCKETS, DEFAULT_WORKERS,
    IDLE_MILLIS, SEGMENT_NAME,
};

#[test]
fn defaults() {
    assert_eq!(DEFAULT_BUCKETS, 10);
    assert_eq!(DEFAULT_WORKERS, 4);
    assert_eq!(IDLE_MILLIS, 100);
    assert_eq!(SEGMENT_NAME, "RequestQueue");
}

#[test]
fn shutdown_comes_first() {
    assert_eq!(plan_server_step(true, Header { read_index: 0, write_index: 0 }), ServerStep::Stop);
    assert_eq!(plan_server_step(true, Header { read_index: 0, write_index: 5 }), ServerStep::Stop);
}

#[test]
fn empty_ring_means_sleep() {
    assert_eq!(plan_server_step(false, Header { read_index: 3, write_index: 3 }), ServerStep::Sleep(100));
}

#[test]
fn pending_record_is_taken() {
    assert_eq!(
        plan_server_step(false, Header { read_index: 3, write_index: 5 }),
        ServerStep::Take(Ticket { slot: 3, next: 4 })
    );
    assert_eq!(
        plan_server_step(false, Header { read_index: 9, write_index: 5 }),
        ServerStep::Take(Ticket { slot: 9, next: 0 })
    );
}

#[test]
fn queue_error_messages() {
    assert_eq!(QueueError::QueueFull.message(), "Queue is full");
    assert_eq!(QueueError::QueueEmpty.message(), "Queue is empty");
}
