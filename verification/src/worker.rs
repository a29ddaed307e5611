//! One worker of the pool: what it is, and what it does with a delivery.
use crate::channel::Delivery;
use crate::error::PoolError;
use crate::message::Message;
use vstd::prelude::*;

verus! {

/// Where a worker is in its life.
#[derive(Clone, Copy, Debug, PartialEq, Eq, Structural)]
pub enum WorkerState {
    /// In its loop, taking messages.
    Running,
    /// Out of its loop for good.
    Terminated,
}

/// What a worker is to do after it looked into the channel.
#[derive(Debug, PartialEq, Eq)]
pub enum Action<T> {
    /// Run this job, then look again.
    Execute(T),
    /// Nothing to do yet: wait until something is sent, then look again.
    Wait,
    /// Leave the loop: the worker was told to stop.
    Exit,
    /// Leave the loop and end the thread abnormally, with this error.
    Fail(PoolError),
}

/// A worker as the contracts see it.
pub struct WorkerView<H> {
    /// Its number, for diagnostics.
    pub id: usize,
    /// Running or terminated.
    pub state: WorkerState,
    /// Whether it was handed a job and has not come back for the next.
    pub busy: bool,
    /// Why it left its loop, if an error made it leave.
    pub fault: Option<PoolError>,
    /// The slot that holds the handle of its thread.
    pub thread: Option<H>,
}

impl<H> WorkerView<H> {
    /// A worker at the start of its life, with no thread attached yet.
    pub open spec fn fresh(id: usize) -> Self {
        WorkerView { id, state: WorkerState::Running, busy: false, fault: None, thread: None }
    }

    /// Whether the worker is in its loop.
    pub open spec fn is_running(self) -> bool {
        self.state == WorkerState::Running
    }

    /// Whether the worker left its loop because it was told to.
    pub open spec fn has_stopped(self) -> bool {
        self.state == WorkerState::Terminated && self.fault.is_none()
    }

    /// Whether the worker left its loop because of an error.
    pub open spec fn has_failed(self) -> bool {
        self.state == WorkerState::Terminated && self.fault.is_some()
    }

    /// The worker after its thread met `error`: a running worker is out
    /// of its loop for this reason and holds no job any more; a terminated
    /// worker stays as it is.
    pub open spec fn fail(self, error: PoolError) -> Self {
        match self.state {
            WorkerState::Terminated => self,
            WorkerState::Running => WorkerView {
                state: WorkerState::Terminated,
                busy: false,
                fault: Some(error),
                ..self
            },
        }
    }

    /// The worker's table: its next view and what it does, for each state
    /// and each delivery. A terminated worker stays so whatever comes.
    pub open spec fn react<T>(self, delivery: Delivery<Message<T>>) -> (Self, Action<T>) {
        match self.state {
            WorkerState::Terminated => (self, Action::Exit),
            WorkerState::Running => match delivery {
                Delivery::Received(Message::NewJob(job)) => (
                    WorkerView { busy: true, ..self },
                    Action::Execute(job),
                ),
                Delivery::Received(Message::Terminate) => (
                    WorkerView { state: WorkerState::Terminated, busy: false, ..self },
                    Action::Exit,
                ),
                Delivery::Empty => (WorkerView { busy: false, ..self }, Action::Wait),
                Delivery::Disconnected => (
                    self.fail(PoolError::ChannelClosed),
                    Action::Fail(PoolError::ChannelClosed),
                ),
            },
        }
    }
}

/// A worker: a number, a state, and a slot for the handle of the thread
/// that runs its loop. `H` is the type of that handle.
pub struct Worker<H> {
    id: usize,
    state: WorkerState,
    busy: bool,
    fault: Option<PoolError>,
    thread: Option<H>,
}

impl<H> View for Worker<H> {
    type V = WorkerView<H>;

    closed spec fn view(&self) -> WorkerView<H> {
        WorkerView {
            id: self.id,
            state: self.state,
            busy: self.busy,
            fault: self.fault,
            thread: self.thread,
        }
    }
}

impl<H> Worker<H> {
    /// A running worker with the number `id` and an empty slot.
    pub fn new(id: usize) -> (worker: Self)
        ensures
            worker@ == WorkerView::<H>::fresh(id),
    {
        Worker { id, state: WorkerState::Running, busy: false, fault: None, thread: None }
    }

    /// The worker's number.
    pub fn id(&self) -> (id: usize)
        ensures
            id == self@.id,
    {
        self.id
    }

    /// The worker's state.
    pub fn state(&self) -> (state: WorkerState)
        ensures
            state == self@.state,
    {
        self.state
    }

    /// Whether the worker is still in its loop.
    pub fn is_running(&self) -> (running: bool)
        ensures
            running == (self@.state == WorkerState::Running),
    {
        match self.state {
            WorkerState::Running => true,
            WorkerState::Terminated => false,
        }
    }

    /// Whether the worker was handed a job and has not come back since.
    pub fn is_busy(&self) -> (busy: bool)
        ensures
            busy == self@.busy,
    {
        self.busy
    }

    /// The error that made the worker leave its loop, if one did.
    pub fn fault(&self) -> (fault: Option<PoolError>)
        ensures
            fault == self@.fault,
    {
        self.fault
    }

    /// Whether the slot holds a handle.
    pub fn has_thread(&self) -> (held: bool)
        ensures
            held == self@.thread.is_some(),
    {
        self.thread.is_some()
    }

    /// Puts `handle` into the slot and hands out what the slot held.
    pub fn attach(&mut self, handle: H) -> (previous: Option<H>)
        ensures
            previous == old(self)@.thread,
            final(self)@ == (WorkerView { thread: Some(handle), ..old(self)@ }),
    {
        let previous = self.thread.take();
        self.thread = Some(handle);
        previous
    }

    /// Empties the slot and hands out what it held: a handle the first
    /// time, nothing from then on.
    pub fn take_thread(&mut self) -> (handle: Option<H>)
        ensures
            handle == old(self)@.thread,
            final(self)@ == (WorkerView { thread: None, ..old(self)@ }),
    {
        self.thread.take()
    }

    /// One turn of the worker's loop, after it looked into the channel:
    /// moves the worker to its next state and says what it is to do.
    pub fn react<T>(&mut self, delivery: Delivery<Message<T>>) -> (action: Action<T>)
        ensures
            (final(self)@, action) == old(self)@.react(delivery),
    {
        match self.state {
            WorkerState::Terminated => Action::Exit,
            WorkerState::Running => match delivery {
                Delivery::Received(Message::NewJob(job)) => {
                    self.busy = true;
                    Action::Execute(job)
                },
                Delivery::Received(Message::Terminate) => {
                    self.state = WorkerState::Terminated;
                    self.busy = false;
                    Action::Exit
                },
                Delivery::Empty => {
                    self.busy = false;
                    Action::Wait
                },
                Delivery::Disconnected => {
                    self.fail(PoolError::ChannelClosed);
                    Action::Fail(PoolError::ChannelClosed)
                },
            },
        }
    }

    /// Records that the worker's thread met `error` and is lost: a running
    /// worker leaves its loop for this reason, and the job it held, if
    /// any, is given up. A terminated worker stays as it is.
    pub fn fail(&mut self, error: PoolError)
        ensures
            final(self)@ == old(self)@.fail(error),
    {
        match self.state {
            WorkerState::Terminated => {},
            WorkerState::Running => {
                self.state = WorkerState::Terminated;
                self.busy = false;
                self.fault = Some(error);
            },
        }
    }
}

} // verus!
