use imgpool::pool::{Pool, ThreadMonitor, WorkerAction};

#[test]
fn jobs_run_in_claim_order_and_all_deliver() {
    // One worker, three jobs: the worker batch-steals all three, runs them
    // oldest first, and each completion channel receives exactly one value.
    let mut p = Pool::new(1);
    assert_eq!(p.submit(), 0);
    assert_eq!(p.submit(), 1);
    assert_eq!(p.submit(), 2);
    for expected in 0u64..3 {
        match p.worker_step(0) {
            WorkerAction::Run(id) => {
                assert_eq!(id, expected);
                assert_eq!(p.finish_running(0), expected);
            }
            other => panic!("expected a job to run, got {:?}", other),
        }
    }
    assert_eq!(p.worker_step(0), WorkerAction::Idle);
    assert_eq!(p.delivered, vec![0, 1, 2]);
    assert!(p.dropped.is_empty());
    assert!(p.injector.is_empty());
}

#[test]
fn shutdown_resolves_job_submitted_just_before() {
    // A job submitted immediately before the signal still resolves before
    // the join completes: here the worker never even claims it, and the
    // queue teardown resolves it as a delivery failure instead of dropping
    // it silently.
    let mut p = Pool::new(1);
    let id = p.submit();
    p.shutdown();
    assert_eq!(p.worker_step(0), WorkerAction::Stop);
    p.release_pending();
    assert_eq!(p.delivered.len() + p.dropped.len(), 1);
    assert_eq!(p.dropped, vec![id]);
    assert!(p.injector.is_empty());
}

#[test]
fn shutdown_lets_claimed_work_finish() {
    // The signal stops new claims, but a job already popped runs to its end
    // and delivers, then the worker stops.
    let mut p = Pool::new(1);
    let id = p.submit();
    match p.worker_step(0) {
        WorkerAction::Run(got) => assert_eq!(got, id),
        other => panic!("expected a job to run, got {:?}", other),
    }
    p.shutdown();
    assert_eq!(p.finish_running(0), id);
    assert_eq!(p.worker_step(0), WorkerAction::Stop);
    p.release_pending();
    assert_eq!(p.delivered, vec![id]);
    assert!(p.dropped.is_empty());
}

#[test]
fn shutdown_is_idempotent() {
    let mut p = Pool::new(2);
    p.shutdown();
    p.shutdown();
    assert!(p.shutdown_sent);
}

#[test]
fn panic_is_isolated_and_worker_respawns() {
    let mut p = Pool::new(2);
    // Worker 0 claims the first two jobs (batch of two, runs job 0).
    p.submit();
    p.submit();
    match p.worker_step(0) {
        WorkerAction::Run(id) => assert_eq!(id, 0),
        other => panic!("expected a job to run, got {:?}", other),
    }
    // Two more jobs arrive; worker 1 claims them and runs job 2.
    p.submit();
    p.submit();
    match p.worker_step(1) {
        WorkerAction::Run(id) => assert_eq!(id, 2),
        other => panic!("expected a job to run, got {:?}", other),
    }
    // Worker 0 panics mid-job: its running job and its abandoned claim
    // resolve as delivery failures, and a tagged replacement takes the slot.
    p.fail_worker(0);
    assert_eq!(p.dropped, vec![0, 1]);
    assert!(p.workers[0].recovered);
    assert!(!p.workers[0].stopped);
    // Worker 1 and its jobs are untouched by the panic.
    assert_eq!(p.finish_running(1), 2);
    match p.worker_step(1) {
        WorkerAction::Run(id) => assert_eq!(id, 3),
        other => panic!("expected a job to run, got {:?}", other),
    }
    assert_eq!(p.finish_running(1), 3);
    // The replacement worker processes new work.
    let id = p.submit();
    match p.worker_step(0) {
        WorkerAction::Run(got) => assert_eq!(got, id),
        other => panic!("expected a job to run, got {:?}", other),
    }
    assert_eq!(p.finish_running(0), id);
    assert_eq!(p.delivered, vec![2, 3, 4]);
}

#[test]
fn no_job_lost_across_a_full_run() {
    // N submissions against K workers, arbitrary interleaving of steps:
    // after shutdown and teardown, exactly N results have resolved.
    let n: u64 = 20;
    let mut p = Pool::new(3);
    for _ in 0..5 {
        p.submit();
    }
    // Interleave claims, completions, and one panic with more submissions.
    match p.worker_step(0) {
        WorkerAction::Run(_) => {
            p.finish_running(0);
        }
        other => panic!("expected a job to run, got {:?}", other),
    }
    for _ in 0..15 {
        p.submit();
    }
    match p.worker_step(1) {
        WorkerAction::Run(_) => p.fail_worker(1),
        other => panic!("expected a job to run, got {:?}", other),
    }
    loop {
        let mut progressed = false;
        for w in 0..3 {
            if p.workers[w].stopped {
                continue;
            }
            match p.worker_step(w) {
                WorkerAction::Run(_) => {
                    p.finish_running(w);
                    progressed = true;
                }
                WorkerAction::Stop => {}
                WorkerAction::Idle => {}
            }
        }
        if !progressed {
            break;
        }
    }
    p.shutdown();
    for w in 0..3 {
        if !p.workers[w].stopped {
            assert_eq!(p.worker_step(w), WorkerAction::Stop);
        }
    }
    p.release_pending();
    assert_eq!((p.delivered.len() + p.dropped.len()) as u64, n);
    // Each id resolved exactly once.
    let mut resolved: Vec<u64> = p.delivered.clone();
    resolved.extend(p.dropped.iter().copied());
    resolved.sort();
    let expected: Vec<u64> = (0..n).collect();
    assert_eq!(resolved, expected);
}

#[test]
fn thread_monitor_tracks_live_count() {
    let mut live: usize = 0;
    let m1 = ThreadMonitor::new(41, &mut live);
    let m2 = ThreadMonitor::new(42, &mut live);
    assert_eq!(live, 2);
    assert_eq!(m1.id, 41);
    m1.exit(&mut live);
    assert_eq!(live, 1);
    m2.exit(&mut live);
    assert_eq!(live, 0);
}
