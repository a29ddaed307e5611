//! The channel between the pool and its workers.
//!
//! A channel is one queue with two ends. Whoever owns the sending end puts
//! values in at the back; the receiving end is one handle that all workers
//! share, and whoever holds it takes values out at the front. What was sent
//! first is received first, whoever receives it.
use std::collections::VecDeque;
use vstd::prelude::*;

verus! {

/// What a receiver finds when it looks into the channel.
#[derive(Debug, PartialEq, Eq)]
pub enum Delivery<T> {
    /// The value at the front, now out of the channel.
    Received(T),
    /// Nothing is queued, but the sender may still send: come back later.
    Empty,
    /// Nothing is queued and the sender is gone: nothing will ever come.
    Disconnected,
}

/// A first-in first-out channel with one sender and counted receivers.
pub struct Channel<T> {
    queue: VecDeque<T>,
    receivers: usize,
    sender: bool,
}

impl<T> View for Channel<T> {
    type V = Seq<T>;

    /// The queued values, front first.
    closed spec fn view(&self) -> Seq<T> {
        self.queue@
    }
}

impl<T> Channel<T> {
    /// How many holders of the receiving end are left.
    pub closed spec fn receivers(&self) -> nat {
        self.receivers as nat
    }

    /// Whether the sending end still exists.
    pub closed spec fn sender_open(&self) -> bool {
        self.sender
    }

    /// Whether a value sent now would be taken in.
    pub open spec fn accepts(&self) -> bool {
        self.sender_open() && self.receivers() > 0
    }

    /// An empty channel with its sender and `receivers` holders of the
    /// receiving end.
    pub fn new(receivers: usize) -> (channel: Self)
        ensures
            channel@ == Seq::<T>::empty(),
            channel.receivers() == receivers,
            channel.sender_open(),
    {
        Channel { queue: VecDeque::new(), receivers, sender: true }
    }

    /// Puts `value` at the back of the queue. Where the sender is gone or
    /// no receiver is left the channel stays as it is and the value comes
    /// back.
    pub fn send(&mut self, value: T) -> (outcome: Result<(), T>)
        ensures
            final(self).receivers() == old(self).receivers(),
            final(self).sender_open() == old(self).sender_open(),
            old(self).accepts() ==> outcome == Ok::<(), T>(()) && final(self)@ == old(self)@.push(
                value,
            ),
            !old(self).accepts() ==> outcome == Err::<(), T>(value) && final(self)@ == old(self)@,
    {
        if self.sender && self.receivers > 0 {
            self.queue.push_back(value);
            Ok(())
        } else {
            Err(value)
        }
    }

    /// Takes the value at the front, if there is one.
    pub fn recv(&mut self) -> (delivery: Delivery<T>)
        ensures
            final(self).receivers() == old(self).receivers(),
            final(self).sender_open() == old(self).sender_open(),
            delivery == Self::front(old(self)@, old(self).sender_open()),
            final(self)@ == Self::rest(old(self)@),
    {
        match self.queue.pop_front() {
            Some(value) => Delivery::Received(value),
            None => if self.sender {
                Delivery::Empty
            } else {
                Delivery::Disconnected
            },
        }
    }

    /// What a receiver gets from a channel that holds `queue`.
    pub open spec fn front(queue: Seq<T>, sender_open: bool) -> Delivery<T> {
        if queue.len() > 0 {
            Delivery::Received(queue[0])
        } else if sender_open {
            Delivery::Empty
        } else {
            Delivery::Disconnected
        }
    }

    /// What stays queued after one receive.
    pub open spec fn rest(queue: Seq<T>) -> Seq<T> {
        if queue.len() > 0 {
            queue.subrange(1, queue.len() as int)
        } else {
            queue
        }
    }

    /// One holder of the receiving end lets go of it. What is queued stays
    /// queued, though nobody may be left to take it out.
    pub fn release_receiver(&mut self)
        ensures
            final(self)@ == old(self)@,
            final(self).sender_open() == old(self).sender_open(),
            final(self).receivers() == if old(self).receivers() > 0 {
                (old(self).receivers() - 1) as nat
            } else {
                0
            },
    {
        if self.receivers > 0 {
            self.receivers = self.receivers - 1;
        }
    }

    /// The sending end goes away. Receivers still get what is queued, and
    /// after that [`Delivery::Disconnected`].
    pub fn close_sender(&mut self)
        ensures
            final(self)@ == old(self)@,
            final(self).receivers() == old(self).receivers(),
            !final(self).sender_open(),
    {
        self.sender = false;
    }

    /// The number of queued values.
    pub fn len(&self) -> (n: usize)
        ensures
            n == self@.len(),
    {
        self.queue.len()
    }

    /// Whether nothing is queued.
    pub fn is_empty(&self) -> (empty: bool)
        ensures
            empty == (self@.len() == 0),
    {
        self.queue.len() == 0
    }

    /// How many holders of the receiving end are left.
    pub fn receiver_count(&self) -> (n: usize)
        ensures
            n == self.receivers(),
    {
        self.receivers
    }

    /// Whether a value sent now would be taken in.
    pub fn is_open(&self) -> (open: bool)
        ensures
            open == self.accepts(),
    {
        self.sender && self.receivers > 0
    }
}

} // verus!
