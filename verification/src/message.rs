//! What travels on the dispatch channel.

use vstd::prelude::*;

verus! {

/// One element of the dispatch channel: a job to run, or the signal that
/// tells the worker that receives it to stop.
#[derive(Debug, PartialEq, Eq)]
pub enum Message<J> {
    NewJob(J),
    Terminate,
}

impl<J> Message<J> {
    /// Whether this message tells a worker to stop.
    pub fn is_terminate(&self) -> (b: bool)
        ensures
            b == (*self is Terminate),
    {
        match self {
            Message::NewJob(_) => false,
            Message::Terminate => true,
        }
    }
}

} // verus!
