use mylib::{Message, Received, TaskQueue};

#[test]
fn new_queue_is_empty_and_accepts() {
    let queue: TaskQueue<u32> = TaskQueue::new();
    assert_eq!(queue.len(), 0);
    assert!(queue.is_empty());
    assert!(queue.accepts());
}

#[test]
fn entries_come_out_in_the_order_they_went_in() {
    let mut queue: TaskQueue<u32> = TaskQueue::new();
    assert_eq!(queue.send(Message::NewJob(1)), Ok(()));
    assert_eq!(queue.send(Message::Terminate), Ok(()));
    assert_eq!(queue.send(Message::NewJob(2)), Ok(()));
    assert_eq!(queue.len(), 3);
    assert_eq!(queue.receive(), Received::Entry(Message::NewJob(1)));
    assert_eq!(queue.receive(), Received::Entry(Message::Terminate));
    assert_eq!(queue.receive(), Received::Entry(Message::NewJob(2)));
    assert_eq!(queue.len(), 0);
}

#[test]
fn empty_open_queue_makes_the_receiver_wait() {
    let mut queue: TaskQueue<u32> = TaskQueue::new();
    assert_eq!(queue.receive(), Received::Empty);
    assert_eq!(queue.receive(), Received::Empty);
    assert_eq!(queue.send(Message::NewJob(5)), Ok(()));
    assert_eq!(queue.receive(), Received::Entry(Message::NewJob(5)));
    assert_eq!(queue.receive(), Received::Empty);
}

#[test]
fn closed_queue_is_drained_before_it_reports_closed() {
    let mut queue: TaskQueue<u32> = TaskQueue::new();
    assert_eq!(queue.send(Message::NewJob(1)), Ok(()));
    assert_eq!(queue.send(Message::NewJob(2)), Ok(()));
    queue.close();
    assert!(!queue.accepts());
    assert_eq!(queue.send(Message::NewJob(3)), Err(Message::NewJob(3)));
    assert_eq!(queue.len(), 2);
    assert_eq!(queue.receive(), Received::Entry(Message::NewJob(1)));
    assert_eq!(queue.receive(), Received::Entry(Message::NewJob(2)));
    assert_eq!(queue.receive(), Received::Closed);
    assert_eq!(queue.receive(), Received::Closed);
}

#[test]
fn send_fails_and_hands_the_entry_back_once_the_receiver_is_gone() {
    let mut queue: TaskQueue<u32> = TaskQueue::new();
    assert_eq!(queue.send(Message::NewJob(1)), Ok(()));
    queue.disconnect();
    assert!(!queue.accepts());
    assert_eq!(queue.send(Message::NewJob(9)), Err(Message::NewJob(9)));
    assert_eq!(queue.send(Message::Terminate), Err(Message::Terminate));
    assert_eq!(queue.len(), 1);
    assert_eq!(queue.receive(), Received::Closed);
    assert_eq!(queue.len(), 1);
}
