use worker_pool::error::PoolError;
use worker_pool::pool::ThreadPool;
use worker_pool::worker::{Action, WorkerState};

#[test]
fn a_lost_worker_is_out_of_its_loop_and_its_job_is_not_queued_again() {
    let mut pool = ThreadPool::<u32, ()>::new(2).unwrap();
    pool.excute(1).unwrap();
    pool.excute(2).unwrap();
    assert!(matches!(pool.poll(0), Action::Execute(1)));
    pool.fail(0, PoolError::ThreadJoinFailure);
    assert_eq!(pool.worker(0).state(), WorkerState::Terminated);
    assert_eq!(pool.worker(0).fault(), Some(PoolError::ThreadJoinFailure));
    assert!(!pool.worker(0).is_busy());
    assert_eq!(pool.running(), 1);
    assert_eq!(pool.executing(), 0);
    assert_eq!(pool.pending(), 1);
    assert!(matches!(pool.poll(0), Action::Exit));
    assert_eq!(pool.pending(), 1);
    assert!(matches!(pool.poll(1), Action::Execute(2)));
    assert!(matches!(pool.poll(1), Action::Wait));
}

#[test]
fn a_poisoned_lock_is_recorded_on_the_worker_that_found_it() {
    let mut pool = ThreadPool::<u32, ()>::new(3).unwrap();
    pool.fail(1, PoolError::LockPoisoned);
    assert_eq!(pool.worker(1).fault(), Some(PoolError::LockPoisoned));
    assert_eq!(pool.worker(0).fault(), None);
    assert_eq!(pool.worker(2).fault(), None);
    assert_eq!(pool.running(), 2);
    pool.fail(1, PoolError::ThreadJoinFailure);
    assert_eq!(pool.worker(1).fault(), Some(PoolError::LockPoisoned));
    assert_eq!(pool.running(), 2);
}

#[test]
fn a_worker_that_was_told_to_stop_cannot_fail_afterwards() {
    let mut pool = ThreadPool::<u32, ()>::new(1).unwrap();
    pool.dispose();
    assert!(matches!(pool.poll(0), Action::Exit));
    pool.fail(0, PoolError::ThreadJoinFailure);
    assert_eq!(pool.worker(0).fault(), None);
    assert_eq!(pool.running(), 0);
}

#[test]
fn when_every_worker_is_lost_nothing_is_taken_in_any_more() {
    let mut pool = ThreadPool::<u32, u8>::new(2).unwrap();
    pool.attach(0, 10);
    pool.attach(1, 11);
    pool.excute(1).unwrap();
    pool.fail(0, PoolError::ThreadJoinFailure);
    assert_eq!(pool.excute(2), Ok(()));
    pool.fail(1, PoolError::ThreadJoinFailure);
    assert!(!pool.accepting());
    assert_eq!(pool.excute(3), Err(PoolError::ChannelClosed));
    assert_eq!(pool.pending(), 2);
    // Nobody is left to be told to stop, but the threads are still to be
    // waited for.
    assert_eq!(pool.dispose(), vec![(0, 10), (1, 11)]);
    assert_eq!(pool.pending(), 2);
}

#[test]
fn the_workers_that_are_left_still_stop_after_a_loss() {
    let mut pool = ThreadPool::<u32, ()>::new(3).unwrap();
    pool.excute(1).unwrap();
    pool.fail(2, PoolError::ThreadJoinFailure);
    pool.dispose();
    assert_eq!(pool.pending(), 4);
    assert!(matches!(pool.poll(0), Action::Execute(1)));
    assert!(matches!(pool.poll(0), Action::Exit));
    assert!(matches!(pool.poll(1), Action::Exit));
    assert!(matches!(pool.poll(2), Action::Exit));
    assert_eq!(pool.running(), 0);
    assert_eq!(pool.pending(), 1);
    assert_eq!(pool.excute(9), Err(PoolError::ChannelClosed));
}
