use mylib::{Message, Received, StopCause, Turn, Worker, WorkerState};

#[test]
fn new_worker_waits_with_its_handle_held() {
    let worker = Worker::new(3);
    assert_eq!(worker.id(), 3);
    assert_eq!(worker.state(), WorkerState::Waiting);
    assert!(worker.is_running());
    assert!(!worker.is_executing());
    assert!(worker.is_joinable());
}

#[test]
fn worker_runs_the_job_it_receives_and_stays_in_its_loop() {
    let mut worker = Worker::new(0);
    assert_eq!(worker.step(Received::Entry(Message::NewJob(41u32))), Turn::Run(41));
    assert_eq!(worker.state(), WorkerState::Executing);
    assert!(worker.is_running());
    assert!(worker.is_executing());
    assert_eq!(worker.step(Received::Entry(Message::NewJob(42u32))), Turn::Run(42));
    assert_eq!(worker.state(), WorkerState::Executing);
}

#[test]
fn worker_waits_on_an_empty_queue() {
    let mut worker = Worker::new(0);
    assert_eq!(worker.step(Received::Entry(Message::NewJob(1u32))), Turn::Run(1));
    assert_eq!(worker.step(Received::<u32>::Empty), Turn::Wait);
    assert_eq!(worker.state(), WorkerState::Waiting);
    assert!(worker.is_running());
}

#[test]
fn worker_stops_on_a_stop_signal() {
    let mut worker = Worker::new(0);
    assert_eq!(
        worker.step(Received::<u32>::Entry(Message::Terminate)),
        Turn::Stop(StopCause::Terminated)
    );
    assert_eq!(worker.state(), WorkerState::Stopped(StopCause::Terminated));
    assert!(!worker.is_running());
}

#[test]
fn worker_stops_when_the_queue_is_closed() {
    let mut worker = Worker::new(0);
    assert_eq!(worker.step(Received::<u32>::Closed), Turn::Stop(StopCause::QueueClosed));
    assert_eq!(worker.state(), WorkerState::Stopped(StopCause::QueueClosed));
}

#[test]
fn worker_stops_when_it_cannot_lock_the_queue() {
    let mut worker = Worker::new(0);
    assert_eq!(worker.lock_failed(), StopCause::LockFailed);
    assert_eq!(worker.state(), WorkerState::Stopped(StopCause::LockFailed));
    assert!(!worker.is_running());
}

#[test]
fn stopped_worker_never_runs_again() {
    let mut worker = Worker::new(0);
    assert_eq!(
        worker.step(Received::<u32>::Entry(Message::Terminate)),
        Turn::Stop(StopCause::Terminated)
    );
    assert_eq!(
        worker.step(Received::Entry(Message::NewJob(7u32))),
        Turn::Stop(StopCause::Terminated)
    );
    assert_eq!(worker.step(Received::<u32>::Empty), Turn::Stop(StopCause::Terminated));
    assert_eq!(worker.step(Received::<u32>::Closed), Turn::Stop(StopCause::Terminated));
    assert_eq!(worker.lock_failed(), StopCause::Terminated);
    assert_eq!(worker.state(), WorkerState::Stopped(StopCause::Terminated));
}

#[test]
fn handle_is_taken_at_most_once() {
    let mut worker = Worker::new(0);
    assert!(worker.take_handle());
    assert!(!worker.is_joinable());
    assert!(!worker.take_handle());
    assert!(!worker.take_handle());
    assert_eq!(worker.state(), WorkerState::Waiting);
}
