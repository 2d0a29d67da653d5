use tanxium::{
    sleep_request_outcome, Job, JobOrigin, JobQueue, Phase, PromiseOutcome, RuntimeError, Tanxium,
};

#[test]
fn dequeue_on_empty_returns_none() {
    let mut q = JobQueue::new();
    assert!(q.is_empty());
    assert!(q.dequeue().is_none());
    assert_eq!(q.len(), 0);
}

#[test]
fn jobs_run_in_enqueue_order() {
    let mut q = JobQueue::new();
    q.enqueue(Job { id: 10, origin: JobOrigin::Microtask });
    q.enqueue(Job { id: 11, origin: JobOrigin::Timer });
    q.enqueue(Job { id: 12, origin: JobOrigin::Microtask });
    assert_eq!(q.len(), 3);
    let order: Vec<u64> = q.drain().iter().map(|j| j.id).collect();
    assert_eq!(order, vec![10, 11, 12]);
    assert!(q.is_empty());
}

#[test]
fn jobs_enqueued_mid_drain_join_the_same_queue() {
    let mut q = JobQueue::new();
    q.enqueue(Job { id: 1, origin: JobOrigin::Microtask });
    let first = q.drain();
    assert_eq!(first.len(), 1);
    // A job's execution may enqueue again; the host pumps until empty.
    q.enqueue(Job { id: 2, origin: JobOrigin::Microtask });
    let second = q.drain();
    assert_eq!(second.len(), 1);
    assert_eq!(second[0].id, 2);
    assert!(q.is_empty());
}

#[test]
fn empty_event_loop_returns_immediately() {
    let mut t = Tanxium::new().unwrap();
    let loader = t.load_extensions(Vec::new());
    assert!(loader.pending().is_none());
    assert!(t.extensions_finished(loader).is_ok());
    let jobs = t.run_event_loop();
    assert!(jobs.is_empty());
    assert_eq!(t.phase, Phase::Idle);
}

#[test]
fn sleep_resolves_with_elapsed_at_least_requested() {
    let mut t = Tanxium::new().unwrap();
    let loader = t.load_extensions(Vec::new());
    assert!(t.extensions_finished(loader).is_ok());
    let handle = t.sleep(5).unwrap();
    assert_eq!(handle.requested_ms, 5);
    // The monotonic host clock measured 7 ms for the 5 ms timer.
    let outcome = t.complete_sleep(handle, 7, 1);
    match outcome {
        PromiseOutcome::Fulfilled(elapsed_ms) => {
            let elapsed_seconds = elapsed_ms as f64 / 1000.0;
            assert!(elapsed_seconds >= 5.0 / 1000.0);
        },
        _ => panic!("sleep must fulfil"),
    }
    let jobs = t.run_event_loop();
    assert_eq!(jobs.len(), 1);
    assert_eq!(jobs[0].id, 1);
    assert_eq!(jobs[0].origin, JobOrigin::Timer);
    // The queue is empty immediately after the resolving job ran.
    assert!(t.run_event_loop().is_empty());
}

#[test]
fn sleep_of_zero_milliseconds_is_valid() {
    let mut t = Tanxium::new().unwrap();
    let handle = t.sleep(0).unwrap();
    let outcome = t.complete_sleep(handle, 0, 9);
    assert!(matches!(outcome, PromiseOutcome::Fulfilled(0)));
}

#[test]
fn malformed_sleep_rejects_before_any_job_exists() {
    let mut t = Tanxium::new().unwrap();
    let loader = t.load_extensions(Vec::new());
    assert!(t.extensions_finished(loader).is_ok());
    let negative = t.sleep(-3);
    assert!(matches!(negative, Err(RuntimeError::CoercionError(_))));
    let too_large = t.sleep(4_294_967_296);
    assert!(matches!(too_large, Err(RuntimeError::CoercionError(_))));
    // No host timer was scheduled and no stray job was enqueued.
    assert!(t.run_event_loop().is_empty());
}

#[test]
fn a_sleep_request_is_pending_or_immediately_rejected() {
    let mut t = Tanxium::new().unwrap();
    let accepted = t.sleep(250);
    assert!(matches!(sleep_request_outcome(accepted), PromiseOutcome::Pending));
    let refused = t.sleep(-1);
    assert!(matches!(
        sleep_request_outcome(refused),
        PromiseOutcome::Rejected(RuntimeError::CoercionError(_))
    ));
}

#[test]
fn elapsed_time_splits_into_exact_seconds_parts() {
    assert_eq!(tanxium::elapsed_seconds_parts(0), (0, 0));
    assert_eq!(tanxium::elapsed_seconds_parts(999), (0, 999));
    assert_eq!(tanxium::elapsed_seconds_parts(1500), (1, 500));
    let (secs, rem) = tanxium::elapsed_seconds_parts(7);
    assert!((secs as f64 + rem as f64 / 1000.0) >= 5.0 / 1000.0);
}

#[test]
fn largest_sleep_duration_coerces() {
    let mut t = Tanxium::new().unwrap();
    let handle = t.sleep(4_294_967_295).unwrap();
    assert_eq!(handle.requested_ms, u32::MAX);
}
