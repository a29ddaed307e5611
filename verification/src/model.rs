//! The pool as a mathematical object: its state, its transitions, and the
//! shape that every reachable state has.
use crate::channel::Channel;
use crate::error::PoolError;
use crate::message::{terminates, wrap, Message};
use crate::worker::{Action, WorkerView};
use vstd::prelude::*;

verus! {

/// How many of `workers` are still in their loop.
pub open spec fn running<H>(workers: Seq<WorkerView<H>>) -> nat
    decreases workers.len(),
{
    if workers.len() == 0 {
        0
    } else {
        running(workers.drop_last()) + if workers.last().is_running() {
            1nat
        } else {
            0nat
        }
    }
}

/// How many of `workers` left their loop because they were told to.
pub open spec fn stopped<H>(workers: Seq<WorkerView<H>>) -> nat
    decreases workers.len(),
{
    if workers.len() == 0 {
        0
    } else {
        stopped(workers.drop_last()) + if workers.last().has_stopped() {
            1nat
        } else {
            0nat
        }
    }
}

/// How many of `workers` hold a job that they have not finished.
pub open spec fn executing<H>(workers: Seq<WorkerView<H>>) -> nat
    decreases workers.len(),
{
    if workers.len() == 0 {
        0
    } else {
        executing(workers.drop_last()) + if workers.last().busy {
            1nat
        } else {
            0nat
        }
    }
}

/// Whether none of `workers` left its loop because of an error.
pub open spec fn faultless<H>(workers: Seq<WorkerView<H>>) -> bool {
    forall|i: int| 0 <= i < workers.len() ==> !(#[trigger] workers[i]).has_failed()
}

/// The thread handles that the slots of `workers` hold, each with the
/// number of its worker, in worker order.
pub open spec fn threads_of<H>(workers: Seq<WorkerView<H>>) -> Seq<(usize, H)>
    decreases workers.len(),
{
    if workers.len() == 0 {
        Seq::empty()
    } else {
        match workers.last().thread {
            Some(handle) => threads_of(workers.drop_last()).push((workers.last().id, handle)),
            None => threads_of(workers.drop_last()),
        }
    }
}

/// `workers` with every slot emptied.
pub open spec fn detached<H>(workers: Seq<WorkerView<H>>) -> Seq<WorkerView<H>> {
    Seq::new(workers.len(), |i: int| WorkerView { thread: None, ..workers[i] })
}

/// The jobs handed out so far, after a worker was told `action`.
pub open spec fn handed_out<T>(dispatched: Seq<T>, action: Action<T>) -> Seq<T> {
    match action {
        Action::Execute(job) => dispatched.push(job),
        _ => dispatched,
    }
}

/// The state of a pool.
pub struct PoolView<T, H> {
    /// The channel's content, front first.
    pub queue: Seq<Message<T>>,
    /// The workers, in the order in which they were made.
    pub workers: Seq<WorkerView<H>>,
    /// Every job that was taken in, in the order of submission.
    pub submitted: Seq<T>,
    /// Every job that was handed to a worker, in the order of hand-out.
    pub dispatched: Seq<T>,
    /// Whether the pool was disposed of.
    pub disposed: bool,
    /// How many jobs had been taken in when the pool was disposed of.
    pub mark: nat,
    /// How many orders to stop the disposal put into the channel.
    pub signals: nat,
}

impl<T, H> PoolView<T, H> {
    /// A new pool of `size` workers.
    pub open spec fn init(size: nat) -> Self {
        PoolView {
            queue: Seq::empty(),
            workers: Seq::new(size, |i: int| WorkerView::fresh(i as usize)),
            submitted: Seq::empty(),
            dispatched: Seq::empty(),
            disposed: false,
            mark: 0,
            signals: 0,
        }
    }

    /// The number of workers.
    pub open spec fn size(self) -> nat {
        self.workers.len()
    }

    /// Whether `id` is the number of one of the workers.
    pub open spec fn knows(self, id: int) -> bool {
        0 <= id < self.workers.len()
    }

    /// Whether the channel takes in what is sent: whether some worker
    /// still holds its receiving end.
    pub open spec fn accepts(self) -> bool {
        running(self.workers) > 0
    }

    /// The pool after the submission of `job`.
    pub open spec fn submit(self, job: T) -> Self {
        if self.accepts() {
            PoolView {
                queue: self.queue.push(Message::NewJob(job)),
                submitted: self.submitted.push(job),
                ..self
            }
        } else {
            self
        }
    }

    /// The pool after a thread handle was put into the slot of worker `id`.
    pub open spec fn attach(self, id: int, handle: H) -> Self {
        PoolView {
            workers: self.workers.update(
                id,
                WorkerView { thread: Some(handle), ..self.workers[id] },
            ),
            ..self
        }
    }

    /// One turn of worker `id`: the pool after it, and what the worker is
    /// to do. A running worker takes the message at the front of the
    /// channel, if there is one; a terminated worker takes nothing.
    pub open spec fn poll(self, id: int) -> (Self, Action<T>) {
        let worker = self.workers[id];
        if worker.is_running() {
            let (next, action) = worker.react(Channel::front(self.queue, true));
            (
                PoolView {
                    queue: Channel::rest(self.queue),
                    workers: self.workers.update(id, next),
                    dispatched: handed_out(self.dispatched, action),
                    ..self
                },
                action,
            )
        } else {
            (self, Action::Exit)
        }
    }

    /// The pool after the thread of worker `id` met `error`.
    pub open spec fn fail(self, id: int, error: PoolError) -> Self {
        PoolView { workers: self.workers.update(id, self.workers[id].fail(error)), ..self }
    }

    /// The pool after its disposal: one order to stop for each worker goes
    /// to the back of the channel, as long as the channel takes anything
    /// in, and every slot is emptied. A second disposal changes nothing.
    pub open spec fn dispose(self) -> Self {
        if self.disposed {
            self
        } else {
            let signals = if self.accepts() {
                self.workers.len()
            } else {
                0
            };
            PoolView {
                queue: self.queue + terminates(signals),
                workers: detached(self.workers),
                disposed: true,
                mark: self.submitted.len(),
                signals,
                ..self
            }
        }
    }

    /// The number of submitted jobs that no order to stop stands in front
    /// of: all of them before the disposal, `mark` after it.
    pub open spec fn cut(self) -> nat {
        if self.disposed {
            self.mark
        } else {
            self.submitted.len()
        }
    }

    /// The number of orders to stop that are still in the channel.
    pub open spec fn sentinels(self) -> nat {
        if self.disposed {
            (self.signals - stopped(self.workers)) as nat
        } else {
            0
        }
    }

    /// The shape of every pool. The workers are numbered in order; only a
    /// running worker is busy, and no running worker carries an error. The
    /// jobs handed out are the first of those submitted. The channel holds,
    /// in this order: the jobs from before the disposal that nobody took
    /// yet, the orders to stop that nobody took yet, and the jobs that came
    /// after the disposal. After the disposal there is an order to stop
    /// left for every worker that is still running. No worker is told to
    /// stop before the pool is disposed of, and none while a job from
    /// before the disposal waits.
    pub open spec fn inv(self) -> bool {
        let d = self.dispatched.len();
        let m = self.cut();
        &&& self.workers.len() > 0
        &&& forall|i: int| 0 <= i < self.workers.len() ==> (#[trigger] self.workers[i]).id == i
        &&& forall|i: int|
            0 <= i < self.workers.len() && (#[trigger] self.workers[i]).is_running()
                ==> self.workers[i].fault.is_none()
        &&& forall|i: int|
            0 <= i < self.workers.len() && (#[trigger] self.workers[i]).busy
                ==> self.workers[i].is_running()
        &&& d <= m <= self.submitted.len()
        &&& self.dispatched == self.submitted.take(d as int)
        &&& self.queue == wrap(self.submitted.subrange(d as int, m as int)) + terminates(
            self.sentinels(),
        ) + wrap(self.submitted.skip(m as int))
        &&& !self.disposed ==> stopped(self.workers) == 0
        &&& self.disposed ==> running(self.workers) + stopped(self.workers) <= self.signals
            <= self.workers.len()
        &&& stopped(self.workers) > 0 ==> d == m
    }
}

/// What one worker adds to the number of running workers.
pub open spec fn running_part<H>(worker: WorkerView<H>) -> int {
    if worker.is_running() {
        1
    } else {
        0
    }
}

/// What one worker adds to the number of workers told to stop.
pub open spec fn stopped_part<H>(worker: WorkerView<H>) -> int {
    if worker.has_stopped() {
        1
    } else {
        0
    }
}

/// Every worker is running, was told to stop, or failed: those that are
/// running and those that were told to stop are no more than all.
pub proof fn lemma_count_bound<H>(workers: Seq<WorkerView<H>>)
    ensures
        running(workers) + stopped(workers) <= workers.len(),
        faultless(workers) ==> running(workers) + stopped(workers) == workers.len(),
    decreases workers.len(),
{
    if workers.len() > 0 {
        let rest = workers.drop_last();
        lemma_count_bound(rest);
        if faultless(workers) {
            assert(faultless(rest)) by {
                assert forall|i: int| 0 <= i < rest.len() implies !(#[trigger] rest[i]).has_failed() by {}
            }
        }
    }
}

/// Where every worker is running, as many are running as there are, and
/// none was told to stop.
pub proof fn lemma_count_fresh<H>(workers: Seq<WorkerView<H>>)
    requires
        forall|i: int| 0 <= i < workers.len() ==> (#[trigger] workers[i]).is_running(),
    ensures
        running(workers) == workers.len(),
        stopped(workers) == 0,
    decreases workers.len(),
{
    if workers.len() > 0 {
        let rest = workers.drop_last();
        assert forall|i: int| 0 <= i < rest.len() implies (#[trigger] rest[i]).is_running() by {}
        lemma_count_fresh(rest);
    }
}

/// Where as many workers are running as there are, each of them is.
pub proof fn lemma_count_full<H>(workers: Seq<WorkerView<H>>)
    requires
        running(workers) == workers.len(),
    ensures
        forall|i: int| 0 <= i < workers.len() ==> (#[trigger] workers[i]).is_running(),
    decreases workers.len(),
{
    if workers.len() > 0 {
        let rest = workers.drop_last();
        lemma_count_bound(rest);
        lemma_count_full(rest);
        assert forall|i: int| 0 <= i < workers.len() implies (#[trigger] workers[i]).is_running() by {
            if i < rest.len() {
                assert(rest[i] == workers[i]);
            }
        }
    }
}

/// Replacing one worker changes the counts by what the old worker added
/// to them and the new one adds.
pub proof fn lemma_count_update<H>(workers: Seq<WorkerView<H>>, i: int, next: WorkerView<H>)
    requires
        0 <= i < workers.len(),
    ensures
        running(workers.update(i, next)) == running(workers) - running_part(workers[i])
            + running_part(next),
        stopped(workers.update(i, next)) == stopped(workers) - stopped_part(workers[i])
            + stopped_part(next),
    decreases workers.len(),
{
    let updated = workers.update(i, next);
    if i == workers.len() - 1 {
        assert(updated.drop_last() =~= workers.drop_last());
    } else {
        assert(updated.drop_last() =~= workers.drop_last().update(i, next));
        lemma_count_update(workers.drop_last(), i, next);
    }
}

/// Emptying the slots leaves the counts as they are.
pub proof fn lemma_count_detached<H>(workers: Seq<WorkerView<H>>)
    ensures
        running(detached(workers)) == running(workers),
        stopped(detached(workers)) == stopped(workers),
    decreases workers.len(),
{
    if workers.len() > 0 {
        assert(detached(workers).drop_last() =~= detached(workers.drop_last()));
        lemma_count_detached(workers.drop_last());
    }
}

/// Where only running workers are busy, no more are busy than are
/// running.
pub proof fn lemma_executing_running<H>(workers: Seq<WorkerView<H>>)
    requires
        forall|i: int|
            0 <= i < workers.len() && (#[trigger] workers[i]).busy ==> workers[i].is_running(),
    ensures
        executing(workers) <= running(workers),
    decreases workers.len(),
{
    if workers.len() > 0 {
        let rest = workers.drop_last();
        assert forall|i: int| 0 <= i < rest.len() && (#[trigger] rest[i]).busy implies rest[i].is_running() by {}
        lemma_executing_running(rest);
    }
}

/// A new pool has the shape of a pool.
pub proof fn lemma_init_inv<T, H>(size: nat)
    requires
        0 < size <= usize::MAX,
    ensures
        PoolView::<T, H>::init(size).inv(),
        running(PoolView::<T, H>::init(size).workers) == size,
{
    let v = PoolView::<T, H>::init(size);
    lemma_count_fresh(v.workers);
    assert(v.queue =~= wrap(v.submitted.subrange(0, 0)) + terminates(0) + wrap(
        v.submitted.skip(0),
    ));
    assert(v.dispatched =~= v.submitted.take(0));
}

/// A submission keeps the shape.
pub proof fn lemma_submit_inv<T, H>(v: PoolView<T, H>, job: T)
    requires
        v.inv(),
    ensures
        v.submit(job).inv(),
{
    let w = v.submit(job);
    if v.accepts() {
        // Before the disposal the job joins the first stretch of the
        // channel, after it the last.
        let d = v.dispatched.len() as int;
        let m = w.cut() as int;
        assert(w.dispatched =~= w.submitted.take(d));
        assert(w.queue =~= wrap(w.submitted.subrange(d, m)) + terminates(w.sentinels()) + wrap(
            w.submitted.skip(m),
        ));
    }
}

/// Putting a thread handle into a slot keeps the shape.
pub proof fn lemma_attach_inv<T, H>(v: PoolView<T, H>, id: int, handle: H)
    requires
        v.inv(),
        v.knows(id),
    ensures
        v.attach(id, handle).inv(),
        running(v.attach(id, handle).workers) == running(v.workers),
{
    let w = v.attach(id, handle);
    lemma_count_update(v.workers, id, w.workers[id]);
}

/// The loss of a worker's thread keeps the shape.
pub proof fn lemma_fail_inv<T, H>(v: PoolView<T, H>, id: int, error: PoolError)
    requires
        v.inv(),
        v.knows(id),
    ensures
        v.fail(id, error).inv(),
        running(v.fail(id, error).workers) == running(v.workers) - running_part(v.workers[id]),
{
    let w = v.fail(id, error);
    lemma_count_update(v.workers, id, w.workers[id]);
}

/// A turn of a worker keeps the shape.
pub proof fn lemma_poll_inv<T, H>(v: PoolView<T, H>, id: int)
    requires
        v.inv(),
        v.knows(id),
    ensures
        v.poll(id).0.inv(),
        running(v.poll(id).0.workers) == running(v.workers) - running_part(v.workers[id])
            + running_part(v.poll(id).0.workers[id]),
{
    let w = v.poll(id).0;
    let worker = v.workers[id];
    if worker.is_running() {
        let d = v.dispatched.len() as int;
        let m = v.cut() as int;
        let stops = terminates::<T>(v.sentinels());
        let late = wrap(v.submitted.skip(m));
        lemma_count_update(v.workers, id, w.workers[id]);
        if v.queue.len() == 0 {
            // The worker waits.
        } else if d < m {
            // A job from before the disposal is at the front.
            assert(w.dispatched =~= w.submitted.take(d + 1));
            assert(w.queue =~= wrap(w.submitted.subrange(d + 1, m)) + stops + late);
        } else if v.sentinels() > 0 {
            // An order to stop is at the front.
            assert(w.queue =~= wrap(w.submitted.subrange(d, m)) + terminates(w.sentinels())
                + late);
        } else {
            // A job from after the disposal would be at the front: but then
            // no order to stop is left, so no worker is running.
            lemma_count_update(v.workers, id, worker.fail(PoolError::ChannelClosed));
        }
    }
}

/// Disposal keeps the shape.
pub proof fn lemma_dispose_inv<T, H>(v: PoolView<T, H>)
    requires
        v.inv(),
    ensures
        v.dispose().inv(),
        running(v.dispose().workers) == running(v.workers),
{
    lemma_count_detached(v.workers);
    lemma_count_bound(v.workers);
}

} // verus!
