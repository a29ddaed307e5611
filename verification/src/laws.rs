//! What holds of a pool whatever is done with it, in whatever order.
use crate::message::{
    jobs_of, lemma_jobs_of_concat, lemma_jobs_of_terminates, lemma_jobs_of_wrap, terminates,
    wrap,
};
use crate::error::PoolError;
use crate::model::{
    executing, faultless, lemma_attach_inv, lemma_count_bound, lemma_count_full,
    lemma_count_update, lemma_dispose_inv, lemma_executing_running, lemma_fail_inv,
    lemma_init_inv, lemma_poll_inv, lemma_submit_inv, running, stopped, PoolView,
};
use crate::worker::{Action, WorkerState};
use vstd::prelude::*;

verus! {

/// One thing that can happen to a pool.
pub enum Event<T, H> {
    /// A job is submitted.
    Submit(T),
    /// The handle of a worker's thread is put into the worker's slot.
    Attach(int, H),
    /// A worker takes a turn of its loop.
    Poll(int),
    /// The thread of a worker is lost to an error.
    Fail(int, PoolError),
    /// The pool is disposed of.
    Dispose,
}

impl<T, H> PoolView<T, H> {
    /// The pool after `event`. An event that names a worker which the pool
    /// does not have changes nothing.
    pub open spec fn step(self, event: Event<T, H>) -> Self {
        match event {
            Event::Submit(job) => self.submit(job),
            Event::Attach(id, handle) => if self.knows(id) {
                self.attach(id, handle)
            } else {
                self
            },
            Event::Poll(id) => if self.knows(id) {
                self.poll(id).0
            } else {
                self
            },
            Event::Fail(id, error) => if self.knows(id) {
                self.fail(id, error)
            } else {
                self
            },
            Event::Dispose => self.dispose(),
        }
    }

    /// The pool after `events`, one after the other.
    pub open spec fn run(self, events: Seq<Event<T, H>>) -> Self
        decreases events.len(),
    {
        if events.len() == 0 {
            self
        } else {
            self.run(events.drop_last()).step(events.last())
        }
    }

    /// Whether some worker has left its loop.
    pub open spec fn some_exited(self) -> bool {
        running(self.workers) < self.workers.len()
    }

    /// Whether every worker has left its loop.
    pub open spec fn all_exited(self) -> bool {
        running(self.workers) == 0
    }
}

/// Whatever happens to a pool that is in order leaves it in order.
pub proof fn law_step_keeps_order<T, H>(v: PoolView<T, H>, event: Event<T, H>)
    requires
        v.inv(),
    ensures
        v.step(event).inv(),
{
    match event {
        Event::Submit(job) => lemma_submit_inv(v, job),
        Event::Attach(id, handle) => if v.knows(id) {
            lemma_attach_inv(v, id, handle)
        },
        Event::Poll(id) => if v.knows(id) {
            lemma_poll_inv(v, id)
        },
        Event::Fail(id, error) => if v.knows(id) {
            lemma_fail_inv(v, id, error)
        },
        Event::Dispose => lemma_dispose_inv(v),
    }
}

/// Every pool that can be reached from a new one is in order, however
/// submissions, turns of the workers, losses and the disposal follow each
/// other.
pub proof fn law_reachable_in_order<T, H>(size: nat, events: Seq<Event<T, H>>)
    requires
        0 < size <= usize::MAX,
    ensures
        PoolView::<T, H>::init(size).run(events).inv(),
        PoolView::<T, H>::init(size).run(events).size() == size,
    decreases events.len(),
{
    let start = PoolView::<T, H>::init(size);
    if events.len() == 0 {
        lemma_init_inv::<T, H>(size);
    } else {
        law_reachable_in_order::<T, H>(size, events.drop_last());
        law_step_keeps_order(start.run(events.drop_last()), events.last());
    }
}

/// No job is lost and none is handed out twice: the jobs that were taken
/// in are, in the order of their submission, the jobs that were handed to
/// a worker, each once, and then the jobs that wait in the channel, each
/// once.
pub proof fn law_each_job_once<T, H>(v: PoolView<T, H>)
    requires
        v.inv(),
    ensures
        v.submitted == v.dispatched + jobs_of(v.queue),
{
    let d = v.dispatched.len() as int;
    let m = v.cut() as int;
    let early = v.submitted.subrange(d, m);
    let late = v.submitted.skip(m);
    lemma_jobs_of_concat(wrap(early) + terminates(v.sentinels()), wrap(late));
    lemma_jobs_of_concat(wrap(early), terminates(v.sentinels()));
    lemma_jobs_of_wrap(early);
    lemma_jobs_of_wrap(late);
    lemma_jobs_of_terminates::<T>(v.sentinels());
}

/// Jobs are handed out in the order of their submission: the job that a
/// worker is told to run is the earliest one that no worker had yet.
pub proof fn law_first_come_first_served<T, H>(v: PoolView<T, H>, id: int, job: T)
    requires
        v.inv(),
        v.knows(id),
        v.poll(id).1 == Action::Execute(job),
    ensures
        v.dispatched.len() < v.submitted.len(),
        job == v.submitted[v.dispatched.len() as int],
        v.poll(id).0.dispatched == v.submitted.take(v.dispatched.len() as int + 1),
{
    lemma_poll_inv(v, id);
    let w = v.poll(id).0;
}

/// At no time do more jobs run than the pool has workers: a job runs on
/// the worker that it was handed to, and a worker holds one job at most.
pub proof fn law_bounded_concurrency<T, H>(v: PoolView<T, H>)
    requires
        v.inv(),
    ensures
        executing(v.workers) <= running(v.workers) <= v.size(),
{
    lemma_executing_running(v.workers);
    lemma_count_bound(v.workers);
}

/// As long as no worker is lost to an error, none leaves its loop before
/// the pool is disposed of, and each that left was told to.
pub proof fn law_no_exit_before_disposal<T, H>(v: PoolView<T, H>)
    requires
        v.inv(),
        faultless(v.workers),
        v.some_exited(),
    ensures
        v.disposed,
        stopped(v.workers) > 0,
{
    lemma_count_bound(v.workers);
}

/// Once a worker was told to stop and has left its loop, every job that
/// was submitted before the disposal has been handed to a worker, and no
/// other job has.
pub proof fn law_drained_before_exit<T, H>(v: PoolView<T, H>)
    requires
        v.inv(),
        stopped(v.workers) > 0,
    ensures
        v.disposed,
        v.mark <= v.submitted.len(),
        v.dispatched == v.submitted.take(v.mark as int),
{
}

/// Once every worker has left its loop, no further job is taken in.
pub proof fn law_closed_after_exit<T, H>(v: PoolView<T, H>, job: T)
    requires
        v.all_exited(),
    ensures
        !v.accepts(),
        v.submit(job) == v,
{
}

/// Once every worker has left its loop and none was lost to an error,
/// the jobs that were handed out are those submitted before the disposal,
/// and the channel holds those submitted after it and nothing else.
pub proof fn law_complete_after_exit<T, H>(v: PoolView<T, H>)
    requires
        v.inv(),
        faultless(v.workers),
        v.all_exited(),
    ensures
        v.disposed,
        v.dispatched == v.submitted.take(v.mark as int),
        v.queue == wrap(v.submitted.skip(v.mark as int)),
{
    lemma_count_bound(v.workers);
}

/// A terminated worker takes nothing out of the channel, ever again.
pub proof fn law_terminated_is_final<T, H>(v: PoolView<T, H>, id: int, error: PoolError)
    requires
        v.knows(id),
        v.workers[id].state == WorkerState::Terminated,
    ensures
        v.poll(id) == (v, Action::<T>::Exit),
        v.fail(id, error) == v,
{
    assert(v.fail(id, error).workers =~= v.workers);
}

/// No turn of a worker of the pool ends in failure: the pool holds the
/// sending end of its channel for as long as it lives.
pub proof fn law_poll_never_fails<T, H>(v: PoolView<T, H>, id: int)
    requires
        v.knows(id),
    ensures
        !(v.poll(id).1 is Fail),
        v.poll(id).0.workers[id].fault == v.workers[id].fault,
{
}

/// After the disposal no running worker finds the channel empty: an order
/// to stop is in it for each of them, so none waits for a message that
/// will never come.
pub proof fn law_no_wait_after_disposal<T, H>(v: PoolView<T, H>, id: int)
    requires
        v.inv(),
        v.disposed,
        v.knows(id),
    ensures
        v.sentinels() >= running(v.workers),
        v.poll(id).1 is Execute || v.poll(id).1 is Exit,
{
    if v.workers[id].is_running() {
        // One worker at least is running, so one order to stop at least is
        // in the channel.
        lemma_count_update(v.workers, id, v.workers[id].fail(PoolError::ChannelClosed));
    }
}

/// What is left to do after the disposal: the jobs from before it that
/// nobody took yet, and the workers that are still running.
pub open spec fn remaining<T, H>(v: PoolView<T, H>) -> int {
    v.cut() - v.dispatched.len() + running(v.workers)
}

/// After the disposal every turn of a running worker takes one thing off
/// what is left to do: the worker gets a job from before the disposal, or
/// it leaves. So the workers are all out of their loops after as many
/// turns as there were such jobs and workers, whoever takes which turn.
pub proof fn law_disposal_terminates<T, H>(v: PoolView<T, H>, id: int)
    requires
        v.inv(),
        v.disposed,
        v.knows(id),
        v.workers[id].is_running(),
    ensures
        remaining(v.poll(id).0) == remaining(v) - 1,
{
    lemma_poll_inv(v, id);
    law_no_wait_after_disposal(v, id);
}

/// After the disposal, nothing is left to do only when every worker is out
/// of its loop; and when every worker is out of its loop and none was lost
/// to an error, nothing is left to do.
pub proof fn law_done_when_nothing_left<T, H>(v: PoolView<T, H>)
    requires
        v.inv(),
        v.disposed,
    ensures
        remaining(v) >= 0,
        remaining(v) == 0 ==> v.all_exited() && v.dispatched.len() == v.mark,
        faultless(v.workers) && v.all_exited() ==> remaining(v) == 0,
{
    lemma_count_bound(v.workers);
}

/// The jobs of the submissions among `events`, in their order.
pub open spec fn submissions<T, H>(events: Seq<Event<T, H>>) -> Seq<T>
    decreases events.len(),
{
    if events.len() == 0 {
        Seq::empty()
    } else {
        match events.last() {
            Event::Submit(job) => submissions(events.drop_last()).push(job),
            _ => submissions(events.drop_last()),
        }
    }
}

/// Whether `events` hold neither the disposal nor the loss of a worker.
pub open spec fn undisturbed<T, H>(events: Seq<Event<T, H>>) -> bool {
    forall|i: int|
        0 <= i < events.len() ==> !((#[trigger] events[i]) is Dispose) && !(events[i] is Fail)
}

/// As long as the pool is not disposed of and no worker is lost, every
/// worker runs and every submission is taken in, whatever the workers do
/// in between.
pub proof fn law_submissions_taken_in<T, H>(size: nat, events: Seq<Event<T, H>>)
    requires
        0 < size <= usize::MAX,
        undisturbed(events),
    ensures
        PoolView::<T, H>::init(size).run(events).submitted == submissions(events),
        running(PoolView::<T, H>::init(size).run(events).workers) == size,
        !PoolView::<T, H>::init(size).run(events).disposed,
    decreases events.len(),
{
    let start = PoolView::<T, H>::init(size);
    if events.len() == 0 {
        lemma_init_inv::<T, H>(size);
    } else {
        let before = events.drop_last();
        assert(undisturbed(before)) by {
            assert forall|i: int| 0 <= i < before.len() implies !((#[trigger] before[i]) is Dispose)
                && !(before[i] is Fail) by {}
        }
        law_submissions_taken_in::<T, H>(size, before);
        law_reachable_in_order::<T, H>(size, before);
        let v = start.run(before);
        match events.last() {
            Event::Attach(id, handle) => if v.knows(id) {
                lemma_attach_inv(v, id, handle);
            },
            Event::Poll(id) => if v.knows(id) {
                lemma_count_full(v.workers);
                lemma_poll_inv(v, id);
                law_no_exit_on_poll_before_disposal(v, id);
            },
            _ => {},
        }
    }
}

/// Before the disposal a turn of a worker never ends the worker: it gets
/// a job whenever one waits, and is told to wait when none does.
pub proof fn law_no_exit_on_poll_before_disposal<T, H>(v: PoolView<T, H>, id: int)
    requires
        v.inv(),
        !v.disposed,
        v.knows(id),
        v.workers[id].is_running(),
    ensures
        v.poll(id).0.workers[id].is_running(),
        v.queue.len() > 0 ==> v.poll(id).1 is Execute,
        v.queue.len() == 0 ==> v.poll(id).1 is Wait,
{
}

/// All of it at once, for every pool that can come about: however
/// submissions, turns of the workers, losses and the disposal follow each
/// other, each job that was taken in is either waiting or was handed out,
/// once; no more jobs run than there are workers; and once a worker was
/// told to stop, the jobs handed out are those from before the disposal.
pub proof fn law_whatever_the_interleaving<T, H>(size: nat, events: Seq<Event<T, H>>)
    requires
        0 < size <= usize::MAX,
    ensures
        ({
            let v = PoolView::<T, H>::init(size).run(events);
            &&& v.size() == size
            &&& v.submitted == v.dispatched + jobs_of(v.queue)
            &&& executing(v.workers) <= running(v.workers) <= size
            &&& stopped(v.workers) > 0 ==> v.disposed && v.dispatched == v.submitted.take(
                v.mark as int,
            )
            &&& faultless(v.workers) && v.all_exited() ==> v.queue == wrap(
                v.submitted.skip(v.mark as int),
            )
        }),
{
    let v = PoolView::<T, H>::init(size).run(events);
    law_reachable_in_order::<T, H>(size, events);
    law_each_job_once(v);
    law_bounded_concurrency(v);
    if stopped(v.workers) > 0 {
        law_drained_before_exit(v);
    }
    if faultless(v.workers) && v.all_exited() {
        law_complete_after_exit(v);
    }
}

} // verus!
