use mylib::{Shutdown, StopCause, Submission, ThreadPool, Turn, WorkerState};

fn all_stopped(pool: &ThreadPool<u32>) -> bool {
    pool.running() == 0
}

#[test]
fn new_pool_has_as_many_running_workers_as_asked_for() {
    for size in [1usize, 2, 5, 16] {
        let pool: ThreadPool<u32> = ThreadPool::new(size);
        assert_eq!(pool.size(), size);
        assert_eq!(pool.running(), size);
        assert_eq!(pool.executing(), 0);
        assert_eq!(pool.pending(), 0);
        assert!(!pool.is_terminating());
        for id in 0..size {
            assert_eq!(pool.worker_state(id), WorkerState::Waiting);
        }
    }
}

#[test]
fn submitted_job_is_queued() {
    let mut pool: ThreadPool<u32> = ThreadPool::new(3);
    assert_eq!(pool.execute(10), Submission::Queued);
    assert_eq!(pool.pending(), 1);
    assert_eq!(pool.execute(11), Submission::Queued);
    assert_eq!(pool.pending(), 2);
    assert_eq!(pool.executing(), 0);
}

#[test]
fn worker_waits_while_nothing_is_queued() {
    let mut pool: ThreadPool<u32> = ThreadPool::new(2);
    assert_eq!(pool.turn(0), Turn::Wait);
    assert_eq!(pool.turn(1), Turn::Wait);
    assert_eq!(pool.turn(0), Turn::Wait);
    assert_eq!(pool.worker_state(0), WorkerState::Waiting);
    assert_eq!(pool.running(), 2);
}

#[test]
fn few_jobs_all_run_at_once() {
    let mut pool: ThreadPool<u32> = ThreadPool::new(4);
    for job in [100u32, 101, 102] {
        assert_eq!(pool.execute(job), Submission::Queued);
    }
    assert_eq!(pool.turn(2), Turn::Run(100));
    assert_eq!(pool.turn(0), Turn::Run(101));
    assert_eq!(pool.turn(3), Turn::Run(102));
    assert_eq!(pool.executing(), 3);
    assert_eq!(pool.pending(), 0);
    assert_eq!(pool.worker_state(2), WorkerState::Executing);
    assert_eq!(pool.worker_state(0), WorkerState::Executing);
    assert_eq!(pool.worker_state(3), WorkerState::Executing);
    assert_eq!(pool.worker_state(1), WorkerState::Waiting);
}

#[test]
fn three_jobs_on_two_workers() {
    let mut pool: ThreadPool<u32> = ThreadPool::new(2);
    assert_eq!(pool.execute(1), Submission::Queued);
    assert_eq!(pool.execute(2), Submission::Queued);
    assert_eq!(pool.execute(3), Submission::Queued);
    // Both workers take a job; the third job has to wait.
    assert_eq!(pool.turn(0), Turn::Run(1));
    assert_eq!(pool.turn(1), Turn::Run(2));
    assert_eq!(pool.executing(), 2);
    assert_eq!(pool.pending(), 1);
    // The first worker to finish takes the third; the other finds nothing.
    assert_eq!(pool.turn(1), Turn::Run(3));
    assert_eq!(pool.turn(0), Turn::Wait);
    assert_eq!(pool.executing(), 1);
    assert_eq!(pool.pending(), 0);
    assert_eq!(pool.turn(1), Turn::Wait);
    assert_eq!(pool.executing(), 0);
}

#[test]
fn never_more_jobs_run_than_there_are_workers() {
    let mut pool: ThreadPool<u32> = ThreadPool::new(3);
    for job in 0..10u32 {
        assert_eq!(pool.execute(job), Submission::Queued);
    }
    let mut handed_out = Vec::new();
    for round in 0..5 {
        for id in 0..3 {
            if let Turn::Run(job) = pool.turn((id + round) % 3) {
                handed_out.push(job);
            }
            assert!(pool.executing() <= 3);
            assert_eq!(handed_out.len() + pool.pending(), 10);
        }
    }
    assert_eq!(handed_out, (0..10u32).collect::<Vec<u32>>());
    assert_eq!(pool.pending(), 0);
}

#[test]
fn every_job_is_handed_out_exactly_once() {
    let mut pool: ThreadPool<u32> = ThreadPool::new(2);
    let mut handed_out = Vec::new();
    let mut next = 0u32;
    for step in 0..40usize {
        if step % 3 != 2 {
            assert_eq!(pool.execute(next), Submission::Queued);
            next += 1;
        }
        if let Turn::Run(job) = pool.turn(step % 2) {
            handed_out.push(job);
        }
    }
    while pool.pending() > 0 {
        if let Turn::Run(job) = pool.turn(0) {
            handed_out.push(job);
        }
    }
    assert_eq!(handed_out, (0..next).collect::<Vec<u32>>());
}

#[test]
fn shutdown_signals_every_worker_and_lists_every_worker_for_joining() {
    let mut pool: ThreadPool<u32> = ThreadPool::new(3);
    assert_eq!(pool.execute(7), Submission::Queued);
    let report = pool.shutdown();
    assert_eq!(report, Shutdown { lost_signals: 0, joins: vec![0, 1, 2] });
    assert!(pool.is_terminating());
    assert_eq!(pool.pending(), 4);
    assert_eq!(pool.running(), 3);
}

#[test]
fn second_shutdown_does_nothing() {
    let mut pool: ThreadPool<u32> = ThreadPool::new(2);
    let first = pool.shutdown();
    assert_eq!(first.joins, vec![0, 1]);
    assert_eq!(pool.pending(), 2);
    let second = pool.shutdown();
    assert_eq!(second, Shutdown { lost_signals: 0, joins: vec![] });
    assert_eq!(pool.pending(), 2);
    assert!(pool.is_terminating());
}

#[test]
fn each_worker_takes_one_stop_signal() {
    let mut pool: ThreadPool<u32> = ThreadPool::new(3);
    pool.shutdown();
    assert_eq!(pool.turn(1), Turn::Stop(StopCause::Terminated));
    assert_eq!(pool.pending(), 2);
    assert_eq!(pool.running(), 2);
    // A stopped worker takes nothing more.
    assert_eq!(pool.turn(1), Turn::Stop(StopCause::Terminated));
    assert_eq!(pool.pending(), 2);
    assert_eq!(pool.turn(0), Turn::Stop(StopCause::Terminated));
    assert_eq!(pool.turn(2), Turn::Stop(StopCause::Terminated));
    assert_eq!(pool.pending(), 0);
    assert!(all_stopped(&pool));
    for id in 0..3 {
        assert_eq!(pool.worker_state(id), WorkerState::Stopped(StopCause::Terminated));
    }
}

#[test]
fn shutdown_right_after_five_jobs_still_ends() {
    let mut pool: ThreadPool<u32> = ThreadPool::new(2);
    for job in 0..5u32 {
        assert_eq!(pool.execute(job), Submission::Queued);
    }
    let report = pool.shutdown();
    assert_eq!(report.joins, vec![0, 1]);
    assert_eq!(pool.pending(), 7);
    // Seven entries and two workers: after at most nine turns all is over.
    let mut turns = 0;
    let mut handed_out = Vec::new();
    let mut id = 0;
    while !all_stopped(&pool) {
        match pool.turn(id) {
            Turn::Run(job) => handed_out.push(job),
            Turn::Wait => panic!("a worker was left waiting after the shutdown"),
            Turn::Stop(cause) => assert_eq!(cause, StopCause::Terminated),
        }
        turns += 1;
        assert!(turns <= 9);
        id = 1 - id;
    }
    assert_eq!(handed_out, vec![0, 1, 2, 3, 4]);
    assert_eq!(pool.pending(), 0);
    assert_eq!(pool.executing(), 0);
}

#[test]
fn nothing_runs_after_all_workers_stopped() {
    let mut pool: ThreadPool<u32> = ThreadPool::new(2);
    pool.shutdown();
    assert_eq!(pool.turn(0), Turn::Stop(StopCause::Terminated));
    assert_eq!(pool.turn(1), Turn::Stop(StopCause::Terminated));
    assert!(all_stopped(&pool));
    assert_eq!(pool.execute(99), Submission::Dropped);
    assert_eq!(pool.pending(), 0);
    for _ in 0..3 {
        assert_eq!(pool.turn(0), Turn::Stop(StopCause::Terminated));
        assert_eq!(pool.turn(1), Turn::Stop(StopCause::Terminated));
    }
    assert_eq!(pool.executing(), 0);
    assert_eq!(pool.running(), 0);
}

#[test]
fn job_submitted_after_shutdown_is_queued_but_never_runs() {
    let mut pool: ThreadPool<u32> = ThreadPool::new(2);
    assert_eq!(pool.execute(1), Submission::Queued);
    pool.shutdown();
    assert_eq!(pool.execute(2), Submission::Queued);
    assert_eq!(pool.turn(0), Turn::Run(1));
    assert_eq!(pool.turn(1), Turn::Stop(StopCause::Terminated));
    assert_eq!(pool.turn(0), Turn::Stop(StopCause::Terminated));
    assert!(all_stopped(&pool));
    // The late job is left in the queue.
    assert_eq!(pool.pending(), 1);
    assert_eq!(pool.turn(0), Turn::Stop(StopCause::Terminated));
    assert_eq!(pool.turn(1), Turn::Stop(StopCause::Terminated));
    assert_eq!(pool.pending(), 1);
}

#[test]
fn worker_that_cannot_lock_the_queue_stops_and_the_others_go_on() {
    let mut pool: ThreadPool<u32> = ThreadPool::new(2);
    assert_eq!(pool.lock_failed(0), StopCause::LockFailed);
    assert_eq!(pool.worker_state(0), WorkerState::Stopped(StopCause::LockFailed));
    assert_eq!(pool.running(), 1);
    assert_eq!(pool.execute(5), Submission::Queued);
    assert_eq!(pool.turn(0), Turn::Stop(StopCause::LockFailed));
    assert_eq!(pool.pending(), 1);
    assert_eq!(pool.turn(1), Turn::Run(5));
    // A second failure of the same worker changes nothing.
    assert_eq!(pool.lock_failed(0), StopCause::LockFailed);
    assert_eq!(pool.running(), 1);
}

#[test]
fn job_is_dropped_once_no_worker_is_left() {
    let mut pool: ThreadPool<u32> = ThreadPool::new(2);
    assert_eq!(pool.lock_failed(0), StopCause::LockFailed);
    assert_eq!(pool.execute(1), Submission::Queued);
    assert_eq!(pool.lock_failed(1), StopCause::LockFailed);
    assert_eq!(pool.running(), 0);
    assert_eq!(pool.execute(2), Submission::Dropped);
    assert_eq!(pool.pending(), 1);
    let report = pool.shutdown();
    assert_eq!(report, Shutdown { lost_signals: 2, joins: vec![0, 1] });
    assert_eq!(pool.pending(), 1);
}

#[test]
fn closed_pool_drops_jobs_and_stops_workers_that_find_nothing() {
    let mut pool: ThreadPool<u32> = ThreadPool::new(2);
    assert_eq!(pool.execute(1), Submission::Queued);
    pool.close();
    assert_eq!(pool.execute(2), Submission::Dropped);
    assert_eq!(pool.pending(), 1);
    assert_eq!(pool.turn(0), Turn::Run(1));
    assert_eq!(pool.turn(1), Turn::Stop(StopCause::QueueClosed));
    assert_eq!(pool.turn(0), Turn::Stop(StopCause::QueueClosed));
    assert_eq!(pool.running(), 0);
    assert_eq!(pool.worker_state(1), WorkerState::Stopped(StopCause::QueueClosed));
}

#[test]
fn shutdown_of_a_closed_pool_loses_its_signals_but_nobody_waits() {
    let mut pool: ThreadPool<u32> = ThreadPool::new(3);
    pool.close();
    let report = pool.shutdown();
    assert_eq!(report, Shutdown { lost_signals: 3, joins: vec![0, 1, 2] });
    assert_eq!(pool.pending(), 0);
    for id in 0..3 {
        assert_eq!(pool.turn(id), Turn::Stop(StopCause::QueueClosed));
    }
    assert_eq!(pool.running(), 0);
}
