//! The two sides of a worker: the record that the pool keeps of it, and the
//! state machine that its thread runs.

use vstd::prelude::*;
use crate::message::Message;

verus! {

/// Where a worker's loop stands.
#[derive(Clone, Copy, Debug, PartialEq, Eq, Structural)]
pub enum WorkerState {
    /// Waiting for, or working on, a message.
    Running,
    /// Told to stop; takes no further message.
    Terminated,
}

/// What a worker does with the message it has just received.
#[derive(Debug, PartialEq, Eq)]
pub enum Action<J> {
    /// Run this job on the worker's own thread, then receive again.
    Run(J),
    /// Leave the loop.
    Exit,
}

/// The action that a running worker takes on `message`.
pub open spec fn action_for<J>(message: Message<J>) -> Action<J> {
    match message {
        Message::NewJob(job) => Action::Run(job),
        Message::Terminate => Action::Exit,
    }
}

/// The state of a running worker once it has received `message`.
pub open spec fn state_after<J>(message: Message<J>) -> WorkerState {
    match message {
        Message::NewJob(_) => WorkerState::Running,
        Message::Terminate => WorkerState::Terminated,
    }
}

/// The loop of one worker, as a state machine: the thread that drives it
/// receives a message, asks `on_message` what to do, does it, and goes on for
/// as long as `is_running` holds.
pub struct WorkerLoop {
    id: usize,
    state: WorkerState,
}

impl WorkerLoop {
    pub closed spec fn spec_id(&self) -> usize {
        self.id
    }

    pub closed spec fn spec_state(&self) -> WorkerState {
        self.state
    }

    /// The loop of worker `id`, about to receive its first message.
    pub fn new(id: usize) -> (worker: WorkerLoop)
        ensures
            worker.id() == id,
            worker.state() == WorkerState::Running,
    {
        WorkerLoop { id, state: WorkerState::Running }
    }

    /// The index of the worker that runs this loop.
    #[verifier::when_used_as_spec(spec_id)]
    pub fn id(&self) -> (id: usize)
        ensures
            id == self.id(),
    {
        self.id
    }

    #[verifier::when_used_as_spec(spec_state)]
    pub fn state(&self) -> (state: WorkerState)
        ensures
            state == self.state(),
    {
        self.state
    }

    /// Whether the loop goes on to receive another message.
    pub fn is_running(&self) -> (running: bool)
        ensures
            running == (self.state() == WorkerState::Running),
    {
        match self.state {
            WorkerState::Running => true,
            WorkerState::Terminated => false,
        }
    }

    /// Takes the message that the worker has just received and says what the
    /// worker does with it. A job is to be run, and the worker stays in the
    /// loop; the terminate signal ends the loop for good.
    pub fn on_message<J>(&mut self, message: Message<J>) -> (action: Action<J>)
        requires
            old(self).state() == WorkerState::Running,
        ensures
            action == action_for(message),
            final(self).state() == state_after(message),
            final(self).id() == old(self).id(),
    {
        match message {
            Message::NewJob(job) => Action::Run(job),
            Message::Terminate => {
                self.state = WorkerState::Terminated;
                Action::Exit
            },
        }
    }
}

/// What the pool keeps of one worker: its index, and the handle of its thread
/// in a slot that is emptied once, when the pool shuts down.
pub struct Worker<H> {
    id: usize,
    thread: Option<H>,
}

impl<H> Worker<H> {
    pub closed spec fn spec_id(&self) -> usize {
        self.id
    }

    /// The slot that holds the thread's handle.
    pub closed spec fn thread(&self) -> Option<H> {
        self.thread
    }

    /// The record of worker `id`, whose thread is `thread`.
    pub fn new(id: usize, thread: H) -> (worker: Worker<H>)
        ensures
            worker.id() == id,
            worker.thread() == Some(thread),
    {
        Worker { id, thread: Some(thread) }
    }

    #[verifier::when_used_as_spec(spec_id)]
    pub fn id(&self) -> (id: usize)
        ensures
            id == self.id(),
    {
        self.id
    }

    /// Whether the handle is still in its slot.
    pub fn has_thread(&self) -> (present: bool)
        ensures
            present == self.thread().is_some(),
    {
        self.thread.is_some()
    }

    /// Empties the slot and hands out what it held.
    pub fn take_thread(&mut self) -> (thread: Option<H>)
        ensures
            thread == old(self).thread(),
            final(self).thread().is_none(),
            final(self).id() == old(self).id(),
    {
        self.thread.take()
    }
}

} // verus!
