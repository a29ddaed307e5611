//! What travels through the pool's channel.
use vstd::prelude::*;

verus! {

/// One message on the channel: a job to run, or the order to stop.
#[derive(Debug, PartialEq, Eq)]
pub enum Message<T> {
    /// A job, to be run once by the worker that dequeues it.
    NewJob(T),
    /// Tells the worker that dequeues it to leave its loop.
    Terminate,
}

/// The jobs that a stretch of the channel carries, in channel order.
pub open spec fn jobs_of<T>(q: Seq<Message<T>>) -> Seq<T>
    decreases q.len(),
{
    if q.len() == 0 {
        Seq::empty()
    } else {
        match q.last() {
            Message::NewJob(job) => jobs_of(q.drop_last()).push(job),
            Message::Terminate => jobs_of(q.drop_last()),
        }
    }
}

/// A stretch of the channel that carries exactly `jobs`, one message each.
pub open spec fn wrap<T>(jobs: Seq<T>) -> Seq<Message<T>> {
    Seq::new(jobs.len(), |i: int| Message::NewJob(jobs[i]))
}

/// A stretch of the channel that holds `n` orders to stop.
pub open spec fn terminates<T>(n: nat) -> Seq<Message<T>> {
    Seq::new(n, |i: int| Message::Terminate)
}

/// The jobs of two stretches laid end to end are the jobs of the first,
/// then those of the second.
pub proof fn lemma_jobs_of_concat<T>(a: Seq<Message<T>>, b: Seq<Message<T>>)
    ensures
        jobs_of(a + b) == jobs_of(a) + jobs_of(b),
    decreases b.len(),
{
    if b.len() > 0 {
        assert((a + b).drop_last() =~= a + b.drop_last());
        lemma_jobs_of_concat(a, b.drop_last());
    }
}

/// Wrapping jobs into messages and reading the jobs back changes nothing.
pub proof fn lemma_jobs_of_wrap<T>(jobs: Seq<T>)
    ensures
        jobs_of(wrap(jobs)) == jobs,
    decreases jobs.len(),
{
    if jobs.len() > 0 {
        assert(wrap(jobs).drop_last() =~= wrap(jobs.drop_last()));
        lemma_jobs_of_wrap(jobs.drop_last());
    }
}

/// Orders to stop carry no job.
pub proof fn lemma_jobs_of_terminates<T>(n: nat)
    ensures
        jobs_of(terminates::<T>(n)) == Seq::<T>::empty(),
    decreases n,
{
    if n > 0 {
        assert(terminates::<T>(n).drop_last() =~= terminates::<T>((n - 1) as nat));
        lemma_jobs_of_terminates::<T>((n - 1) as nat);
    }
}

} // verus!
