//! The pool: a fixed set of workers behind one channel.
use crate::channel::Channel;
use crate::error::PoolError;
use crate::message::{terminates, Message};
use crate::model::{
    detached, executing, handed_out, lemma_attach_inv, lemma_count_detached, lemma_dispose_inv,
    lemma_fail_inv, lemma_init_inv, lemma_poll_inv, lemma_submit_inv, running, threads_of,
    PoolView,
};
use crate::worker::{Action, Worker, WorkerView};
use vstd::prelude::*;

verus! {

/// A pool of workers that take jobs of type `T` from one channel. `H` is
/// the type of the handles of the threads that run the workers' loops.
///
/// The pool decides; it does not run anything. A program drives it: each
/// of its worker threads calls [`ThreadPool::poll`] under a lock, does what
/// the answer says with the lock released, and comes back.
pub struct ThreadPool<T, H> {
    workers: Vec<Worker<H>>,
    channel: Channel<Message<T>>,
    disposed: bool,
    submitted: Ghost<Seq<T>>,
    dispatched: Ghost<Seq<T>>,
    mark: Ghost<nat>,
    signals: Ghost<nat>,
}

impl<T, H> View for ThreadPool<T, H> {
    type V = PoolView<T, H>;

    closed spec fn view(&self) -> PoolView<T, H> {
        PoolView {
            queue: self.channel@,
            workers: Seq::new(self.workers@.len(), |i: int| self.workers@[i]@),
            submitted: self.submitted@,
            dispatched: self.dispatched@,
            disposed: self.disposed,
            mark: self.mark@,
            signals: self.signals@,
        }
    }
}

impl<T, H> ThreadPool<T, H> {
    /// Whether the pool's parts fit together: the pool holds the sending
    /// end of its channel, and each running worker the receiving end.
    pub closed spec fn consistent(&self) -> bool {
        &&& self.channel.sender_open()
        &&& self.channel.receivers() == running(self@.workers)
    }

    /// Whether the pool is in order. Every pool that [`ThreadPool::new`]
    /// made is, whatever was done with it since.
    pub open spec fn wf(&self) -> bool {
        self.consistent() && self@.inv()
    }

    /// Makes a pool of `size` running workers, numbered from 0, with an
    /// empty channel and empty slots. A pool of no workers is refused.
    pub fn new(size: usize) -> (made: Result<Self, PoolError>)
        ensures
            size == 0 ==> made is Err && made->Err_0 == PoolError::InvalidConfiguration,
            size > 0 ==> made is Ok && made->Ok_0.wf() && made->Ok_0@ == PoolView::<T, H>::init(
                size as nat,
            ) && made->Ok_0@.size() == size,
    {
        if size == 0 {
            return Err(PoolError::InvalidConfiguration);
        }
        let mut workers: Vec<Worker<H>> = Vec::with_capacity(size);
        let mut id: usize = 0;
        while id < size
            invariant
                id <= size,
                workers@.len() == id,
                forall|j: int|
                    0 <= j < id ==> (#[trigger] workers@[j])@ == WorkerView::<H>::fresh(j as usize),
            decreases size - id,
        {
            workers.push(Worker::new(id));
            id = id + 1;
        }
        let pool = ThreadPool {
            workers,
            channel: Channel::new(size),
            disposed: false,
            submitted: Ghost(Seq::empty()),
            dispatched: Ghost(Seq::empty()),
            mark: Ghost(0),
            signals: Ghost(0),
        };
        proof {
            assert(pool@.workers =~= PoolView::<T, H>::init(size as nat).workers);
            lemma_init_inv::<T, H>(size as nat);
        }
        Ok(pool)
    }

    /// The number of workers.
    pub fn size(&self) -> (n: usize)
        ensures
            n == self@.size(),
    {
        self.workers.len()
    }

    /// Whether the pool was disposed of.
    pub fn is_disposed(&self) -> (disposed: bool)
        ensures
            disposed == self@.disposed,
    {
        self.disposed
    }

    /// The number of messages in the channel.
    pub fn pending(&self) -> (n: usize)
        ensures
            n == self@.queue.len(),
    {
        self.channel.len()
    }

    /// The number of workers that are still in their loop.
    pub fn running(&self) -> (n: usize)
        requires
            self.wf(),
        ensures
            n == running(self@.workers),
    {
        self.channel.receiver_count()
    }

    /// Whether a job submitted now would be taken in.
    pub fn accepting(&self) -> (open: bool)
        requires
            self.wf(),
        ensures
            open == self@.accepts(),
    {
        self.channel.is_open()
    }

    /// The number of workers that hold a job which they have not finished.
    pub fn executing(&self) -> (n: usize)
        ensures
            n == executing(self@.workers),
    {
        let mut n: usize = 0;
        let mut i: usize = 0;
        while i < self.workers.len()
            invariant
                i <= self.workers@.len(),
                n <= i,
                n == executing(self@.workers.take(i as int)),
            decreases self.workers@.len() - i,
        {
            proof {
                let all = self@.workers;
                assert(all.take(i + 1).drop_last() =~= all.take(i as int));
            }
            if self.workers[i].is_busy() {
                n = n + 1;
            }
            i = i + 1;
        }
        proof {
            assert(self@.workers.take(i as int) =~= self@.workers);
        }
        n
    }

    /// Worker `id`.
    pub fn worker(&self, id: usize) -> (worker: &Worker<H>)
        requires
            self@.knows(id as int),
        ensures
            worker@ == self@.workers[id as int],
    {
        &self.workers[id]
    }

    /// Submits `job`: it goes to the back of the channel, for whichever
    /// worker gets to it first. Once no worker is running any more, nobody
    /// holds the receiving end: the job is refused and nothing changes.
    pub fn excute(&mut self, job: T) -> (outcome: Result<(), PoolError>)
        requires
            old(self).wf(),
        ensures
            final(self).wf(),
            final(self)@ == old(self)@.submit(job),
            outcome == if old(self)@.accepts() {
                Ok::<(), PoolError>(())
            } else {
                Err::<(), PoolError>(PoolError::ChannelClosed)
            },
    {
        proof {
            lemma_submit_inv(self@, job);
        }
        match self.channel.send(Message::NewJob(job)) {
            Ok(()) => {
                self.submitted = Ghost(self.submitted@.push(job));
                Ok(())
            },
            Err(_) => Err(PoolError::ChannelClosed),
        }
    }

    /// Puts the handle of the thread that runs worker `id` into that
    /// worker's slot, and hands out what the slot held.
    pub fn attach(&mut self, id: usize, handle: H) -> (previous: Option<H>)
        requires
            old(self).wf(),
            old(self)@.knows(id as int),
        ensures
            final(self).wf(),
            final(self)@ == old(self)@.attach(id as int, handle),
            previous == old(self)@.workers[id as int].thread,
    {
        proof {
            lemma_attach_inv(self@, id as int, handle);
        }
        let previous = self.workers[id].attach(handle);
        proof {
            assert(self@.workers =~= old(self)@.attach(id as int, handle).workers);
        }
        previous
    }

    /// One turn of worker `id`'s loop. A running worker takes the message
    /// at the front of the channel and is told to run the job it carries or
    /// to leave; with nothing in the channel it is told to wait. A
    /// terminated worker takes nothing and is told to leave.
    pub fn poll(&mut self, id: usize) -> (action: Action<T>)
        requires
            old(self).wf(),
            old(self)@.knows(id as int),
        ensures
            final(self).wf(),
            (final(self)@, action) == old(self)@.poll(id as int),
    {
        proof {
            lemma_poll_inv(self@, id as int);
        }
        if !self.workers[id].is_running() {
            return Action::Exit;
        }
        let delivery = self.channel.recv();
        let action = self.workers[id].react(delivery);
        if !self.workers[id].is_running() {
            self.channel.release_receiver();
        }
        self.dispatched = Ghost(handed_out(self.dispatched@, action));
        proof {
            assert(self@.workers =~= old(self)@.poll(id as int).0.workers);
        }
        action
    }

    /// Records that the thread of worker `id` met `error` and is lost: it
    /// panicked, or found the lock on the pool poisoned. A running worker
    /// is out of its loop from now on and lets go of the channel; the job
    /// it held, if any, is not queued again. A terminated worker stays as
    /// it is.
    pub fn fail(&mut self, id: usize, error: PoolError)
        requires
            old(self).wf(),
            old(self)@.knows(id as int),
        ensures
            final(self).wf(),
            final(self)@ == old(self)@.fail(id as int, error),
    {
        proof {
            lemma_fail_inv(self@, id as int, error);
        }
        if self.workers[id].is_running() {
            self.workers[id].fail(error);
            self.channel.release_receiver();
        }
        proof {
            assert(self@.workers =~= old(self)@.fail(id as int, error).workers);
        }
    }

    /// Disposes of the pool, in two steps that never mix. First one order
    /// to stop for each worker goes to the back of the channel. Then every
    /// slot is emptied, and the handles come out in worker order, each with
    /// the number of its worker: the caller waits for each of these threads
    /// in turn. A pool that was disposed of before stays as it is and hands
    /// out nothing.
    pub fn dispose(&mut self) -> (handles: Vec<(usize, H)>)
        requires
            old(self).wf(),
        ensures
            final(self).wf(),
            final(self)@ == old(self)@.dispose(),
            handles@ == if old(self)@.disposed {
                Seq::<(usize, H)>::empty()
            } else {
                threads_of(old(self)@.workers)
            },
    {
        proof {
            lemma_dispose_inv(self@);
        }
        if self.disposed {
            return Vec::new();
        }
        self.signal();
        let handles = self.detach();
        self.disposed = true;
        self.mark = Ghost(self.submitted@.len());
        handles
    }

    /// The first step of the disposal: sends one order to stop for each
    /// worker, and waits for nobody.
    fn signal(&mut self)
        requires
            old(self).consistent(),
        ensures
            final(self).consistent(),
            final(self)@.signals == if old(self)@.accepts() {
                old(self)@.size()
            } else {
                0
            },
            final(self)@ == (PoolView {
                queue: old(self)@.queue + terminates(final(self)@.signals),
                signals: final(self)@.signals,
                ..old(self)@
            }),
    {
        let n = self.workers.len();
        let ghost open = self@.accepts();
        let mut sent: usize = 0;
        while sent < n
            invariant
                sent <= n,
                n == self.workers@.len(),
                self.workers == old(self).workers,
                self.submitted == old(self).submitted,
                self.dispatched == old(self).dispatched,
                self.mark == old(self).mark,
                self.disposed == old(self).disposed,
                self.channel.sender_open(),
                self.channel.receivers() == old(self).channel.receivers(),
                open == self.channel.accepts(),
                self.channel@ == old(self).channel@ + terminates::<T>(
                    if open {
                        sent as nat
                    } else {
                        0
                    },
                ),
            decreases n - sent,
        {
            let _ = self.channel.send(Message::Terminate);
            sent = sent + 1;
        }
        self.signals = Ghost(
            if open {
                n as nat
            } else {
                0
            },
        );
    }

    /// The second step of the disposal: takes the handle out of every
    /// slot, in worker order.
    fn detach(&mut self) -> (handles: Vec<(usize, H)>)
        ensures
            final(self).consistent() == old(self).consistent(),
            final(self)@ == (PoolView { workers: detached(old(self)@.workers), ..old(self)@ }),
            handles@ == threads_of(old(self)@.workers),
    {
        let mut handles: Vec<(usize, H)> = Vec::new();
        let n = self.workers.len();
        let mut i: usize = 0;
        while i < n
            invariant
                i <= n,
                n == self.workers@.len(),
                n == old(self).workers@.len(),
                self.channel == old(self).channel,
                self.submitted == old(self).submitted,
                self.dispatched == old(self).dispatched,
                self.mark == old(self).mark,
                self.signals == old(self).signals,
                self.disposed == old(self).disposed,
                forall|j: int|
                    0 <= j < i ==> (#[trigger] self.workers@[j])@ == (WorkerView {
                        thread: None,
                        ..old(self).workers@[j]@
                    }),
                forall|j: int| i <= j < n ==> #[trigger] self.workers@[j] == old(self).workers@[j],
                handles@ == threads_of(old(self)@.workers.take(i as int)),
            decreases n - i,
        {
            proof {
                let before = old(self)@.workers;
                assert(before.take(i + 1).drop_last() =~= before.take(i as int));
            }
            let id = self.workers[i].id();
            match self.workers[i].take_thread() {
                Some(handle) => {
                    handles.push((id, handle));
                },
                None => {},
            }
            i = i + 1;
        }
        proof {
            let before = old(self)@.workers;
            assert(before.take(n as int) =~= before);
            assert(self@.workers =~= detached(before));
            lemma_count_detached(before);
        }
        handles
    }
}

} // verus!
