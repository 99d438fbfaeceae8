use dash2gps::control::{should_publish, worker_decision, FsEventKind, WorkerAction};

#[test]
fn worker_processes_whatever_the_queue_yields() {
    assert_eq!(worker_decision(false, true), WorkerAction::Process);
    // A frame received after the shutdown request is still processed: the
    // queue is drained before the worker may stop.
    assert_eq!(worker_decision(true, true), WorkerAction::Process);
}

#[test]
fn worker_exits_only_after_shutdown_and_empty_poll() {
    assert_eq!(worker_decision(false, false), WorkerAction::Poll);
    assert_eq!(worker_decision(true, false), WorkerAction::Exit);
}

#[test]
fn only_write_close_events_publish() {
    assert!(should_publish(&FsEventKind::AccessCloseWrite));
    assert!(!should_publish(&FsEventKind::AccessCloseRead));
    assert!(!should_publish(&FsEventKind::AccessOther));
    assert!(!should_publish(&FsEventKind::Create));
    assert!(!should_publish(&FsEventKind::Modify));
    assert!(!should_publish(&FsEventKind::Remove));
    assert!(!should_publish(&FsEventKind::Other));
}
