//! The pool: the workers' records, and what the pool puts on the dispatch
//! channel.

use vstd::prelude::*;
use crate::message::Message;
use crate::worker::Worker;

verus! {

/// What is left to do once a pool has shut down.
pub struct Shutdown<J, H> {
    /// The messages to put on the channel, in this order: one terminate
    /// signal for each worker.
    pub signals: Vec<Message<J>>,
    /// The threads to wait for once the signals are on the channel, in this
    /// order: that of their creation.
    pub threads: Vec<H>,
}

/// `n` terminate signals.
pub open spec fn terminate_signals<J>(n: nat) -> Seq<Message<J>> {
    Seq::new(n, |i: int| Message::Terminate)
}

/// A fixed number of workers, numbered from 0 in the order of their
/// creation. `H` is the handle of a worker's thread.
pub struct ThreadPool<H> {
    workers: Vec<Worker<H>>,
}

impl<H> View for ThreadPool<H> {
    type V = Seq<Worker<H>>;

    /// The workers' records, by index.
    closed spec fn view(&self) -> Seq<Worker<H>> {
        self.workers@
    }
}

impl<H> ThreadPool<H> {
    /// Every worker's handle is in its slot: the pool takes jobs.
    pub open spec fn spec_is_open(&self) -> bool {
        forall|i: int| 0 <= i < self@.len() ==> (#[trigger] self@[i]).thread().is_some()
    }

    /// Every slot is empty: the pool has shut down.
    pub open spec fn is_shut_down(&self) -> bool {
        forall|i: int| 0 <= i < self@.len() ==> (#[trigger] self@[i]).thread().is_none()
    }

    /// The pool has a worker, each worker's index is its place in the pool,
    /// and the slots are all full or all empty.
    pub open spec fn wf(&self) -> bool {
        &&& self@.len() > 0
        &&& forall|i: int| 0 <= i < self@.len() ==> (#[trigger] self@[i]).id() == i
        &&& self.is_open() || self.is_shut_down()
    }

    /// The handles of an open pool, in the order of the workers' creation.
    pub open spec fn threads(&self) -> Seq<H> {
        Seq::new(self@.len(), |i: int| self@[i].thread().unwrap())
    }

    pub open spec fn spec_size(&self) -> usize {
        self@.len() as usize
    }

    /// A pool of `size` workers. `spawn` starts the thread of the worker whose
    /// index it is given and returns the thread's handle; it is called once
    /// for each index, in rising order.
    pub fn new<F: Fn(usize) -> H>(size: usize, spawn: F) -> (pool: ThreadPool<H>)
        requires
            size > 0,
            forall|id: usize| id < size ==> call_requires(spawn, (id,)),
        ensures
            pool.wf(),
            pool.is_open(),
            pool@.len() == size,
            forall|id: usize|
                id < size ==> call_ensures(spawn, (id,), #[trigger] pool.threads()[id as int]),
    {
        let mut workers: Vec<Worker<H>> = Vec::with_capacity(size);
        let mut id: usize = 0;
        while id < size
            invariant
                id <= size,
                workers@.len() == id,
                forall|k: usize| k < size ==> call_requires(spawn, (k,)),
                forall|i: int| 0 <= i < id ==> (#[trigger] workers@[i]).id() == i,
                forall|i: int| 0 <= i < id ==> (#[trigger] workers@[i]).thread().is_some(),
                forall|k: usize|
                    k < id ==> call_ensures(
                        spawn,
                        (k,),
                        #[trigger] workers@[k as int].thread().unwrap(),
                    ),
            decreases size - id,
        {
            let thread = spawn(id);
            workers.push(Worker::new(id, thread));
            id += 1;
        }
        ThreadPool { workers }
    }

    /// The number of workers, which never changes.
    #[verifier::when_used_as_spec(spec_size)]
    pub fn size(&self) -> (size: usize)
        ensures
            size == self@.len(),
            size == self.size(),
    {
        self.workers.len()
    }

    /// Whether the pool still takes jobs.
    #[verifier::when_used_as_spec(spec_is_open)]
    pub fn is_open(&self) -> (open: bool)
        requires
            self.wf(),
        ensures
            open == self.is_open(),
            open == !self.is_shut_down(),
    {
        self.workers[0].has_thread()
    }

    /// The record of worker `index`.
    pub fn worker(&self, index: usize) -> (worker: &Worker<H>)
        requires
            index < self@.len(),
        ensures
            *worker == self@[index as int],
    {
        &self.workers[index]
    }

    /// Wraps `job` as the message to put on the channel. A pool that has shut
    /// down takes no job.
    pub fn execute<J>(&self, job: J) -> (message: Message<J>)
        requires
            self.is_open(),
        ensures
            message == Message::NewJob(job),
    {
        Message::NewJob(job)
    }

    /// Shuts the pool down: empties every slot, and returns the terminate
    /// signals to put on the channel, one for each worker, and the handles to
    /// wait for after that, in the order of the workers' creation.
    pub fn shutdown<J>(&mut self) -> (plan: Shutdown<J, H>)
        requires
            old(self).wf(),
            old(self).is_open(),
        ensures
            final(self).wf(),
            final(self).is_shut_down(),
            final(self)@.len() == old(self)@.len(),
            plan.signals@ == terminate_signals::<J>(old(self)@.len()),
            plan.threads@ == old(self).threads(),
    {
        let size: usize = self.workers.len();
        let mut signals: Vec<Message<J>> = Vec::with_capacity(size);
        let mut threads: Vec<H> = Vec::with_capacity(size);
        let mut i: usize = 0;
        while i < size
            invariant
                i <= size,
                signals@.len() == i,
                forall|k: int| 0 <= k < i ==> signals@[k] == Message::<J>::Terminate,
            decreases size - i,
        {
            signals.push(Message::Terminate);
            i += 1;
        }
        let mut i: usize = 0;
        while i < size
            invariant
                i <= size,
                size == self@.len(),
                size == old(self)@.len(),
                threads@.len() == i,
                forall|k: int| 0 <= k < size ==> (#[trigger] self@[k]).id() == k,
                forall|k: int| 0 <= k < i ==> (#[trigger] self@[k]).thread().is_none(),
                forall|k: int| i <= k < size ==> (#[trigger] self@[k]) == old(self)@[k],
                forall|k: int| i <= k < size ==> (#[trigger] self@[k]).thread().is_some(),
                forall|k: int|
                    0 <= k < i ==> threads@[k] == (#[trigger] old(self)@[k]).thread().unwrap(),
            decreases size - i,
        {
            let thread = self.workers[i].take_thread();
            match thread {
                Some(thread) => {
                    threads.push(thread);
                },
                None => {},
            }
            i += 1;
        }
        Shutdown { signals, threads }
    }
}

} // verus!
