use url_shortener::pool::{WorkerPool, WorkerState};

#[test]
fn new_pool_starts_all_idle() {
    let pool = WorkerPool::new(4);
    assert_eq!(pool.workers.len(), 4);
    assert!(pool.workers.iter().all(|w| matches!(w, WorkerState::Idle)));
    assert!(pool.pending.is_empty());
    assert!(pool.accepting);
    assert!(pool.completed.is_empty());
}

#[test]
fn one_fewer_job_than_workers_leaves_one_idle() {
    let size: usize = 4;
    let mut pool = WorkerPool::new(size);
    for job in 0..(size as u64 - 1) {
        pool.submit(job);
    }
    // three long-running jobs occupy three of the four workers
    for w in 0..size - 1 {
        let job = pool.take(w);
        assert_eq!(job, w as u64);
    }
    assert!(matches!(pool.workers[size - 1], WorkerState::Idle));
}

#[test]
fn every_submitted_job_runs_exactly_once() {
    let size: usize = 2;
    let mut pool = WorkerPool::new(size);
    let submitted: Vec<u64> = (0..7).collect();
    for &job in &submitted {
        pool.submit(job);
    }
    while !pool.pending.is_empty() {
        let w = pool
            .workers
            .iter()
            .position(|s| matches!(s, WorkerState::Idle))
            .expect("some worker must be idle");
        pool.take(w);
        pool.finish(w);
    }
    let mut done = pool.completed.clone();
    done.sort();
    assert_eq!(done, submitted);
}

#[test]
fn teardown_waits_for_in_flight_jobs() {
    let size: usize = 3;
    let mut pool = WorkerPool::new(size);
    for job in 0..5u64 {
        pool.submit(job);
    }
    pool.take(0);
    pool.take(1);
    pool.begin_teardown();
    // in-flight and queued jobs still finish after teardown begins
    pool.finish(0);
    pool.finish(1);
    while !pool.pending.is_empty() {
        pool.take(0);
        pool.finish(0);
    }
    for w in 0..size {
        pool.worker_exit(w);
    }
    assert!(pool
        .workers
        .iter()
        .all(|s| matches!(s, WorkerState::Terminated)));
    assert!(pool.pending.is_empty());
    let mut done = pool.completed.clone();
    done.sort();
    assert_eq!(done, (0..5u64).collect::<Vec<u64>>());
}
