//! The pool, its channel and its workers as one state machine, with every
//! order in which the workers may take their turns, and what holds of all of
//! them.

use vstd::prelude::*;
use crate::message::Message;
use crate::pool::terminate_signals;

verus! {

/// Where one worker stands.
#[derive(Clone, Copy, Debug, PartialEq, Eq, Structural)]
pub enum Phase {
    /// In its loop, waiting for a message.
    Idle,
    /// In its loop, in the middle of a job. A worker whose job never comes to
    /// an end stays here for good.
    Busy,
    /// Out of its loop.
    Terminated,
}

/// One move of the pool or of a worker.
pub enum Step<J> {
    /// The pool's owner submits a job.
    Submit(J),
    /// The pool's owner shuts the pool down.
    ShutDown,
    /// The worker with this index takes the oldest message off the channel.
    Deliver(int),
    /// The worker with this index comes to the end of its job.
    Complete(int),
}

/// The pool, the channel and the workers at one moment. On the channel the
/// jobs come first and the terminate signals behind them, since no job is
/// submitted once the pool has shut down.
pub struct SystemState<J> {
    /// Whether the pool still takes jobs.
    pub open: bool,
    /// The jobs on the channel, oldest first.
    pub pending: Seq<J>,
    /// The number of terminate signals on the channel, behind the jobs.
    pub signals: nat,
    /// Where each worker stands, by index.
    pub phases: Seq<Phase>,
    /// The jobs taken off the channel so far, oldest first, each with the
    /// index of the worker that took it.
    pub delivered: Seq<(int, J)>,
}

/// How many of the workers are still in their loop.
pub open spec fn live_count(phases: Seq<Phase>) -> nat
    decreases phases.len(),
{
    if phases.len() == 0 {
        0
    } else {
        live_count(phases.drop_last()) + if phases.last() is Terminated {
            0nat
        } else {
            1nat
        }
    }
}

/// How many of the workers are in the middle of a job.
pub open spec fn busy_count(phases: Seq<Phase>) -> nat
    decreases phases.len(),
{
    if phases.len() == 0 {
        0
    } else {
        busy_count(phases.drop_last()) + if phases.last() is Busy {
            1nat
        } else {
            0nat
        }
    }
}

/// The jobs of `delivered`, without the workers that took them.
pub open spec fn jobs_of<J>(delivered: Seq<(int, J)>) -> Seq<J> {
    delivered.map_values(|entry: (int, J)| entry.1)
}

impl<J> SystemState<J> {
    /// A pool of `size` workers that has just been created.
    pub open spec fn init(size: nat) -> SystemState<J> {
        SystemState {
            open: true,
            pending: Seq::empty(),
            signals: 0,
            phases: Seq::new(size, |i: int| Phase::Idle),
            delivered: Seq::empty(),
        }
    }

    pub open spec fn size(self) -> nat {
        self.phases.len()
    }

    /// What the channel holds, oldest first.
    pub open spec fn queue(self) -> Seq<Message<J>> {
        self.pending.map_values(|job: J| Message::NewJob(job)) + terminate_signals::<J>(
            self.signals,
        )
    }

    /// Whether worker `worker` can take a message: it waits, and the channel
    /// holds one.
    pub open spec fn can_deliver(self, worker: int) -> bool {
        &&& 0 <= worker < self.size()
        &&& self.phases[worker] is Idle
        &&& self.pending.len() + self.signals > 0
    }

    /// Whether worker `worker` is in the middle of a job.
    pub open spec fn can_complete(self, worker: int) -> bool {
        &&& 0 <= worker < self.size()
        &&& self.phases[worker] is Busy
    }

    /// Whether `step` can be taken. The pool takes jobs, and shuts down,
    /// while it is open. A worker that waits while the channel is empty
    /// takes nothing, nor does one in the middle of a job, nor one that has
    /// left its loop.
    pub open spec fn enabled(self, step: Step<J>) -> bool {
        match step {
            Step::Submit(_) => self.open,
            Step::ShutDown => self.open,
            Step::Deliver(worker) => self.can_deliver(worker),
            Step::Complete(worker) => self.can_complete(worker),
        }
    }

    /// The state that `step` leads to.
    pub open spec fn next(self, step: Step<J>) -> SystemState<J> {
        match step {
            Step::Submit(job) => SystemState { pending: self.pending.push(job), ..self },
            Step::ShutDown => SystemState {
                open: false,
                signals: self.signals + self.size(),
                ..self
            },
            Step::Deliver(worker) => if self.pending.len() > 0 {
                SystemState {
                    pending: self.pending.drop_first(),
                    phases: self.phases.update(worker, Phase::Busy),
                    delivered: self.delivered.push((worker, self.pending.first())),
                    ..self
                }
            } else {
                SystemState {
                    signals: (self.signals - 1) as nat,
                    phases: self.phases.update(worker, Phase::Terminated),
                    ..self
                }
            },
            Step::Complete(worker) => SystemState {
                phases: self.phases.update(worker, Phase::Idle),
                ..self
            },
        }
    }

    /// What holds of every state that a pool can reach: it has a worker; while
    /// it is open no signal is on the channel and no worker has left; once it
    /// has shut down the channel holds one signal for each worker that is
    /// still in its loop; no worker leaves while a job is pending; and every
    /// job was taken by a worker of the pool.
    pub open spec fn inv(self) -> bool {
        &&& self.size() > 0
        &&& self.open ==> self.signals == 0 && live_count(self.phases) == self.size()
        &&& !self.open ==> self.signals == live_count(self.phases)
        &&& live_count(self.phases) < self.size() ==> self.pending.len() == 0
        &&& forall|k: int|
            0 <= k < self.delivered.len() ==> 0 <= (#[trigger] self.delivered[k]).0 < self.size()
    }

    /// No worker can move: none is in the middle of a job, and none that
    /// waits finds a message.
    pub open spec fn quiescent(self) -> bool {
        forall|worker: int|
            #![trigger self.can_deliver(worker)]
            #![trigger self.can_complete(worker)]
            !self.can_deliver(worker) && !self.can_complete(worker)
    }

    pub open spec fn all_terminated(self) -> bool {
        forall|worker: int|
            0 <= worker < self.size() ==> (#[trigger] self.phases[worker]) is Terminated
    }

    /// An upper bound on the moves that the workers can still make once the
    /// pool has shut down.
    pub open spec fn work_left(self) -> nat {
        2 * self.pending.len() + self.signals + busy_count(self.phases)
    }
}

/// The state that the steps of `trace`, taken in order, lead to from `state`.
pub open spec fn run<J>(state: SystemState<J>, trace: Seq<Step<J>>) -> SystemState<J>
    decreases trace.len(),
{
    if trace.len() == 0 {
        state
    } else {
        run(state.next(trace.first()), trace.drop_first())
    }
}

/// Whether each step of `trace` can be taken in the state that it meets.
pub open spec fn valid<J>(state: SystemState<J>, trace: Seq<Step<J>>) -> bool
    decreases trace.len(),
{
    trace.len() == 0 || (state.enabled(trace.first()) && valid(
        state.next(trace.first()),
        trace.drop_first(),
    ))
}

/// The jobs that `trace` submits, in order.
pub open spec fn submitted<J>(trace: Seq<Step<J>>) -> Seq<J>
    decreases trace.len(),
{
    if trace.len() == 0 {
        Seq::empty()
    } else {
        match trace.first() {
            Step::Submit(job) => seq![job] + submitted(trace.drop_first()),
            _ => submitted(trace.drop_first()),
        }
    }
}

/// Worker `worker` takes a message and completes its job, `jobs` times over.
pub open spec fn solo<J>(worker: int, jobs: nat) -> Seq<Step<J>>
    decreases jobs,
{
    if jobs == 0 {
        Seq::empty()
    } else {
        seq![Step::Deliver(worker), Step::Complete(worker)] + solo(worker, (jobs - 1) as nat)
    }
}

} // verus!
