//! The job pool: the worker dispatch and the orderly-shutdown guarantee on
//! concrete queues.

use chat_server::pool::ThreadPool;
use chat_server::pool::WorkerOutcome;

#[test]
fn shutdown_runs_every_queued_job_first() {
    // More jobs than workers, then shutdown: all jobs complete, in order,
    // and each worker consumes exactly one pill.
    let mut pool = ThreadPool::new(2);
    pool.execute(1);
    pool.execute(2);
    pool.execute(3);
    pool.execute(4);
    pool.execute(5);
    pool.shutdown();
    assert_eq!(pool.executed_ids(), &vec![1, 2, 3, 4, 5]);
    assert_eq!(pool.pills_taken(0), 1);
    assert_eq!(pool.pills_taken(1), 1);
}

#[test]
fn shutdown_of_an_idle_pool_stops_every_worker() {
    let mut pool = ThreadPool::new(3);
    pool.shutdown();
    assert!(pool.executed_ids().is_empty());
    for w in 0..3 {
        assert_eq!(pool.pills_taken(w), 1);
    }
}

#[test]
fn a_worker_runs_jobs_until_its_pill() {
    let mut pool = ThreadPool::new(1);
    pool.execute(7);
    assert_eq!(pool.worker_step(0), WorkerOutcome::Ran(7));
    // Nothing queued: the worker waits.
    assert_eq!(pool.worker_step(0), WorkerOutcome::Nothing);
    pool.execute(8);
    pool.request_shutdown();
    assert_eq!(pool.worker_step(0), WorkerOutcome::Ran(8));
    assert_eq!(pool.worker_step(0), WorkerOutcome::Stopped);
    // A stopped worker never takes another message.
    assert_eq!(pool.worker_step(0), WorkerOutcome::Nothing);
    assert_eq!(pool.pills_taken(0), 1);
}
