use worker_pool::channel::Delivery;
use worker_pool::error::PoolError;
use worker_pool::message::Message;
use worker_pool::worker::{Action, Worker, WorkerState};

#[test]
fn a_new_worker_runs_and_holds_nothing() {
    let worker = Worker::<u8>::new(5);
    assert_eq!(worker.id(), 5);
    assert_eq!(worker.state(), WorkerState::Running);
    assert!(worker.is_running());
    assert!(!worker.is_busy());
    assert!(!worker.has_thread());
    assert_eq!(worker.fault(), None);
}

#[test]
fn a_job_is_to_be_run_and_keeps_the_worker_running() {
    let mut worker = Worker::<u8>::new(0);
    let action = worker.react(Delivery::Received(Message::NewJob(31u32)));
    assert!(matches!(action, Action::Execute(31)));
    assert!(worker.is_running());
    assert!(worker.is_busy());
}

#[test]
fn coming_back_to_an_empty_channel_ends_the_job() {
    let mut worker = Worker::<u8>::new(0);
    worker.react(Delivery::Received(Message::NewJob(1u32)));
    assert!(worker.is_busy());
    let action = worker.react(Delivery::<Message<u32>>::Empty);
    assert!(matches!(action, Action::Wait));
    assert!(worker.is_running());
    assert!(!worker.is_busy());
}

#[test]
fn the_order_to_stop_ends_the_worker() {
    let mut worker = Worker::<u8>::new(3);
    worker.react(Delivery::Received(Message::NewJob(1u32)));
    let action = worker.react(Delivery::Received(Message::<u32>::Terminate));
    assert!(matches!(action, Action::Exit));
    assert_eq!(worker.state(), WorkerState::Terminated);
    assert!(!worker.is_running());
    assert!(!worker.is_busy());
    assert_eq!(worker.fault(), None);
    assert_eq!(worker.id(), 3);
}

#[test]
fn a_channel_that_lost_its_sender_is_fatal_to_the_worker() {
    let mut worker = Worker::<u8>::new(0);
    let action = worker.react(Delivery::<Message<u32>>::Disconnected);
    assert!(matches!(action, Action::Fail(PoolError::ChannelClosed)));
    assert_eq!(worker.state(), WorkerState::Terminated);
    assert_eq!(worker.fault(), Some(PoolError::ChannelClosed));
}

#[test]
fn a_terminated_worker_stays_terminated() {
    let mut worker = Worker::<u8>::new(0);
    worker.react(Delivery::Received(Message::<u32>::Terminate));
    for delivery in [
        Delivery::Received(Message::NewJob(4u32)),
        Delivery::Received(Message::Terminate),
        Delivery::Empty,
        Delivery::Disconnected,
    ] {
        assert!(matches!(worker.react(delivery), Action::Exit));
        assert_eq!(worker.state(), WorkerState::Terminated);
        assert!(!worker.is_busy());
        assert_eq!(worker.fault(), None);
    }
    worker.fail(PoolError::ThreadJoinFailure);
    assert_eq!(worker.fault(), None);
}

#[test]
fn a_lost_thread_ends_the_worker_with_its_error() {
    for error in [PoolError::LockPoisoned, PoolError::ThreadJoinFailure] {
        let mut worker = Worker::<u8>::new(0);
        worker.react(Delivery::Received(Message::NewJob(1u32)));
        worker.fail(error);
        assert_eq!(worker.state(), WorkerState::Terminated);
        assert!(!worker.is_busy());
        assert_eq!(worker.fault(), Some(error));
        worker.fail(PoolError::ChannelClosed);
        assert_eq!(worker.fault(), Some(error));
    }
}

#[test]
fn the_handle_comes_out_of_the_slot_once() {
    let mut worker = Worker::<&str>::new(0);
    assert_eq!(worker.take_thread(), None);
    assert_eq!(worker.attach("handle"), None);
    assert!(worker.has_thread());
    assert_eq!(worker.take_thread(), Some("handle"));
    assert!(!worker.has_thread());
    assert_eq!(worker.take_thread(), None);
    assert!(worker.is_running());
}

#[test]
fn attaching_twice_hands_out_the_first_handle() {
    let mut worker = Worker::<u32>::new(0);
    assert_eq!(worker.attach(1), None);
    assert_eq!(worker.attach(2), Some(1));
    assert_eq!(worker.take_thread(), Some(2));
}
