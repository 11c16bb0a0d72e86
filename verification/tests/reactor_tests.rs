use reactor_core::leak_storage::Key;
use reactor_core::reactor::Event;
use reactor_core::reactor::Interest;
use reactor_core::reactor::PollOutcome;
use reactor_core::reactor::Reactor;
use reactor_core::reactor::Readiness;

fn readable() -> Readiness {
    Readiness { readable: true, writable: false }
}

fn writable_only() -> Readiness {
    Readiness { readable: false, writable: true }
}

#[test]
fn spawn_schedules_first_poll() {
    let mut r = Reactor::new_reactor(8);
    let t = r.do_spawn();
    assert_eq!(r.live_task_count(), 1);
    assert_eq!(r.pending_resumptions(), 1);
    assert_eq!(r.next_resumption(), Some(t));
    assert_eq!(r.pending_resumptions(), 0);
}

#[test]
fn all_ready_on_first_poll_quiesces() {
    let mut r = Reactor::new_reactor(8);
    let mut spawned = Vec::new();
    for _ in 0..3 {
        spawned.push(r.do_spawn());
    }
    assert_eq!(r.live_task_count(), 3);
    let mut polled = Vec::new();
    while let Some(t) = r.next_resumption() {
        assert!(r.report_poll(t, PollOutcome::Ready));
        polled.push(t);
    }
    assert_eq!(polled, spawned);
    assert_eq!(r.live_task_count(), 0);
    assert_eq!(r.pending_resumptions(), 0);
}

#[test]
fn resumptions_are_fifo() {
    let mut r = Reactor::new_reactor(8);
    let a = r.do_spawn();
    let b = r.do_spawn();
    assert_eq!(r.next_resumption(), Some(a));
    assert_eq!(r.next_resumption(), Some(b));
    assert_eq!(r.next_resumption(), None);
}

#[test]
fn matching_event_resumes_exactly_once() {
    let mut r = Reactor::new_reactor(8);
    let task = r.do_spawn();
    assert_eq!(r.next_resumption(), Some(task));
    assert!(!r.report_poll(task, PollOutcome::Pending));
    let resource = r.register();
    let token = r.reregister(resource, task, Interest::Readable).unwrap();
    assert_eq!(r.deliver(token, readable()), Some(task));
    assert_eq!(r.pending_resumptions(), 1);
    // the oneshot token was consumed: a second event for it does nothing
    assert_eq!(r.deliver(token, readable()), None);
    assert_eq!(r.pending_resumptions(), 1);
}

#[test]
fn writable_event_ignored_for_readable_interest() {
    let mut r = Reactor::new_reactor(8);
    let task = r.do_spawn();
    assert_eq!(r.next_resumption(), Some(task));
    let resource = r.register();
    let token = r.reregister(resource, task, Interest::Readable).unwrap();
    // an unrelated writable-only readiness change resumes nothing
    assert_eq!(r.deliver(token, writable_only()), None);
    assert_eq!(r.pending_resumptions(), 0);
    // the registration is still armed: the matching event then fires
    assert_eq!(r.deliver(token, readable()), Some(task));
    assert_eq!(r.pending_resumptions(), 1);
}

#[test]
fn rearming_replaces_outstanding_token() {
    let mut r = Reactor::new_reactor(8);
    let task = r.do_spawn();
    assert_eq!(r.next_resumption(), Some(task));
    let resource = r.register();
    let t1 = r.reregister(resource, task, Interest::Readable).unwrap();
    let t2 = r.reregister(resource, task, Interest::Writable).unwrap();
    assert_ne!(t1, t2);
    assert_eq!(r.deliver(t1, readable()), None);
    assert_eq!(r.deliver(t2, writable_only()), Some(task));
}

#[test]
fn reregister_rejects_unknown_resource() {
    let mut r = Reactor::new_reactor(8);
    let task = r.do_spawn();
    let bogus = Key { index: 9, generation: 4 };
    assert_eq!(r.reregister(bogus, task, Interest::Readable), None);
}

#[test]
fn deregister_consumes_outstanding_token() {
    let mut r = Reactor::new_reactor(8);
    let task = r.do_spawn();
    assert_eq!(r.next_resumption(), Some(task));
    let resource = r.register();
    let token = r.reregister(resource, task, Interest::Readable).unwrap();
    assert!(r.deregister(resource));
    assert!(!r.is_registered(resource));
    assert_eq!(r.deliver(token, readable()), None);
    assert!(!r.deregister(resource));
}

#[test]
fn wake_enqueues_live_task_only() {
    let mut r = Reactor::new_reactor(8);
    let task = r.do_spawn();
    assert_eq!(r.next_resumption(), Some(task));
    assert!(r.wake(task));
    assert_eq!(r.pending_resumptions(), 1);
    assert_eq!(r.next_resumption(), Some(task));
    assert!(r.report_poll(task, PollOutcome::Ready));
    // waking a finished task is reported back, not acted on
    assert!(!r.wake(task));
    assert_eq!(r.pending_resumptions(), 0);
}

#[test]
fn report_for_unknown_task_is_noop() {
    let mut r = Reactor::new_reactor(8);
    let _ = r.do_spawn();
    let bogus = Key { index: 7, generation: 3 };
    assert!(!r.report_poll(bogus, PollOutcome::Ready));
    assert_eq!(r.live_task_count(), 1);
}

#[test]
fn retired_task_is_not_resumed() {
    let mut r = Reactor::new_reactor(8);
    let task = r.do_spawn();
    assert_eq!(r.next_resumption(), Some(task));
    let resource = r.register();
    let token = r.reregister(resource, task, Interest::Readable).unwrap();
    assert!(r.retire(task));
    assert_eq!(r.live_task_count(), 0);
    assert!(!r.is_live(task));
    // the late-arriving event finds the tombstone and resumes nothing
    assert_eq!(r.deliver(token, readable()), None);
    assert_eq!(r.pending_resumptions(), 0);
    assert!(!r.wake(task));
    assert!(!r.retire(task));
}

#[test]
fn finished_tasks_queued_twice_are_skipped() {
    let mut r = Reactor::new_reactor(8);
    let task = r.do_spawn();
    assert!(r.wake(task));
    // queued twice: the first drain polls it to completion
    assert_eq!(r.next_resumption(), Some(task));
    assert!(r.report_poll(task, PollOutcome::Ready));
    // the leftover queue entry is discarded, not handed out
    assert_eq!(r.pending_resumptions(), 1);
    assert_eq!(r.next_resumption(), None);
    assert_eq!(r.pending_resumptions(), 0);
}

#[test]
fn scan_processes_batch_in_reported_order() {
    let mut r = Reactor::new_reactor(8);
    let t1 = r.do_spawn();
    let t2 = r.do_spawn();
    assert_eq!(r.next_resumption(), Some(t1));
    assert_eq!(r.next_resumption(), Some(t2));
    let r1 = r.register();
    let r2 = r.register();
    let k1 = r.reregister(r1, t1, Interest::Readable).unwrap();
    let k2 = r.reregister(r2, t2, Interest::Writable).unwrap();
    let events = vec![
        Event { token: k2, readiness: writable_only() },
        Event { token: k1, readiness: readable() },
    ];
    r.scan(&events);
    // resumptions run after the scan, in event order
    assert_eq!(r.next_resumption(), Some(t2));
    assert_eq!(r.next_resumption(), Some(t1));
}

#[test]
fn events_capacity_is_kept() {
    let r = Reactor::new_reactor(1024);
    assert_eq!(r.events_capacity(), 1024);
}
