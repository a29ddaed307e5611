use std::cell::{Cell, RefCell};
use std::rc::Rc;
use worker_pool::{Action, PoolError, ThreadPool, WorkerState};

type Job = Box<dyn FnOnce()>;

/// Runs the loop of worker `id` until the worker has to wait or leaves.
/// Says whether it left.
fn work(pool: &mut ThreadPool<Job, usize>, id: usize) -> bool {
    loop {
        match pool.poll(id) {
            Action::Execute(job) => job(),
            Action::Wait => return false,
            Action::Exit => return true,
            Action::Fail(error) => panic!("worker {} failed: {:?}", id, error),
        }
    }
}

#[test]
fn four_jobs_on_four_workers_are_done_when_disposal_is() {
    let recorded: Rc<RefCell<Vec<usize>>> = Rc::new(RefCell::new(Vec::new()));
    let mut pool = ThreadPool::<Job, usize>::new(4).unwrap();
    for id in 0..4 {
        assert_eq!(pool.attach(id, 100 + id), None);
    }
    for job in 0..4usize {
        let log = Rc::clone(&recorded);
        pool.excute(Box::new(move || log.borrow_mut().push(job))).unwrap();
    }
    let handles = pool.dispose();
    assert_eq!(handles, vec![(0, 100), (1, 101), (2, 102), (3, 103)]);
    assert_eq!(pool.pending(), 8);
    // Each worker takes one job, as four threads at once would.
    let mut held = Vec::new();
    for id in 0..4 {
        match pool.poll(id) {
            Action::Execute(job) => held.push(job),
            _ => panic!("worker {} got no job", id),
        }
    }
    assert_eq!(pool.executing(), 4);
    assert!(recorded.borrow().is_empty());
    for job in held {
        job();
    }
    // Waiting for a thread ends when its worker has left the loop.
    for (id, _) in handles {
        assert!(work(&mut pool, id));
    }
    let mut ids = recorded.borrow().clone();
    ids.sort();
    assert_eq!(ids, vec![0, 1, 2, 3]);
    assert_eq!(pool.running(), 0);
    assert_eq!(pool.pending(), 0);
}

#[test]
fn ten_increments_on_one_worker_count_to_ten() {
    let counter = Rc::new(Cell::new(0u32));
    let mut pool = ThreadPool::<Job, usize>::new(1).unwrap();
    pool.attach(0, 7);
    for _ in 0..10 {
        let counter = Rc::clone(&counter);
        pool.excute(Box::new(move || counter.set(counter.get() + 1))).unwrap();
    }
    let handles = pool.dispose();
    assert_eq!(handles, vec![(0, 7)]);
    assert!(work(&mut pool, 0));
    assert_eq!(counter.get(), 10);
    assert_eq!(pool.worker(0).state(), WorkerState::Terminated);
}

#[test]
fn a_job_submitted_after_disposal_is_refused() {
    let ran = Rc::new(Cell::new(false));
    let mut pool = ThreadPool::<Job, usize>::new(2).unwrap();
    pool.attach(0, 0);
    pool.attach(1, 1);
    for (id, _) in pool.dispose() {
        assert!(work(&mut pool, id));
    }
    assert!(!pool.accepting());
    let flag = Rc::clone(&ran);
    let outcome = pool.excute(Box::new(move || flag.set(true)));
    assert_eq!(outcome, Err(PoolError::ChannelClosed));
    assert_eq!(pool.pending(), 0);
    for id in 0..2 {
        assert!(matches!(pool.poll(id), Action::Exit));
    }
    assert!(!ran.get());
}

#[test]
fn two_submitters_in_either_order_get_both_jobs_run_once() {
    for first in 0..2usize {
        let runs = Rc::new(RefCell::new(vec![0u32, 0u32]));
        let mut pool = ThreadPool::<Job, usize>::new(2).unwrap();
        for caller in [first, 1 - first] {
            let runs = Rc::clone(&runs);
            pool.excute(Box::new(move || runs.borrow_mut()[caller] += 1)).unwrap();
        }
        assert_eq!(pool.pending(), 2);
        // The workers come for the jobs in either order too.
        for id in [1 - first, first] {
            assert!(!work(&mut pool, id));
        }
        assert_eq!(*runs.borrow(), vec![1, 1]);
        pool.dispose();
        assert!(work(&mut pool, 0));
        assert!(work(&mut pool, 1));
        assert_eq!(*runs.borrow(), vec![1, 1]);
    }
}

#[test]
fn a_second_disposal_changes_nothing() {
    let mut pool = ThreadPool::<Job, usize>::new(3).unwrap();
    pool.attach(2, 42);
    assert_eq!(pool.dispose(), vec![(2, 42)]);
    assert!(pool.is_disposed());
    assert_eq!(pool.pending(), 3);
    assert_eq!(pool.dispose(), vec![]);
    assert_eq!(pool.pending(), 3);
    assert_eq!(pool.attach(0, 5), None);
    assert_eq!(pool.dispose(), vec![]);
    assert!(pool.worker(0).has_thread());
}
