//! The dispatch channel: an unbounded queue that hands messages out in the
//! order in which they were put in, each of them once.

use std::collections::VecDeque;
use vstd::prelude::*;
use crate::message::Message;

verus! {

/// The messages that were sent and not yet received, oldest first.
pub struct Channel<J> {
    queue: VecDeque<Message<J>>,
}

impl<J> View for Channel<J> {
    type V = Seq<Message<J>>;

    closed spec fn view(&self) -> Seq<Message<J>> {
        self.queue@
    }
}

impl<J> Channel<J> {
    /// A channel that holds nothing.
    pub fn new() -> (channel: Channel<J>)
        ensures
            channel@ == Seq::<Message<J>>::empty(),
    {
        Channel { queue: VecDeque::new() }
    }

    /// Puts `message` behind all that the channel holds.
    pub fn send(&mut self, message: Message<J>)
        ensures
            final(self)@ == old(self)@.push(message),
    {
        self.queue.push_back(message);
    }

    /// Takes the oldest message out, if there is one. Where this returns
    /// `None`, a worker would wait.
    pub fn try_recv(&mut self) -> (message: Option<Message<J>>)
        ensures
            message.is_some() == (old(self)@.len() > 0),
            message.is_some() ==> message.unwrap() == old(self)@.first(),
            message.is_some() ==> final(self)@ == old(self)@.drop_first(),
            message.is_none() ==> final(self)@ == old(self)@,
    {
        self.queue.pop_front()
    }

    /// How many messages wait to be received.
    pub fn len(&self) -> (len: usize)
        ensures
            len == self@.len(),
    {
        self.queue.len()
    }

    pub fn is_empty(&self) -> (empty: bool)
        ensures
            empty == (self@.len() == 0),
    {
        self.queue.len() == 0
    }
}

} // verus!
