//! The pool, a channel and the workers' loops put together on one thread:
//! whoever holds the simulation decides which worker moves next.

use vstd::prelude::*;
use crate::channel::Channel;
use crate::laws::{
    law_every_job_delivered_once, lemma_init_inv, lemma_live_count_full, lemma_live_count_zero,
    lemma_run_push, lemma_step_brings_work_down, lemma_step_preserves_inv,
};
use crate::model::{jobs_of, run, submitted, valid, Phase, Step, SystemState};
use crate::pool::{Shutdown, ThreadPool};
use crate::worker::{action_for, Action, WorkerLoop, WorkerState};

verus! {

/// The phase of a worker whose loop is in `state`, and which is in the
/// middle of a job if `busy` says so.
pub open spec fn phase_of(state: WorkerState, busy: bool) -> Phase {
    match state {
        WorkerState::Terminated => Phase::Terminated,
        WorkerState::Running => if busy {
            Phase::Busy
        } else {
            Phase::Idle
        },
    }
}

/// The jobs of `ran`, each with the index of its worker as the model has it.
pub open spec fn taken<J>(ran: Seq<(usize, J)>) -> Seq<(int, J)> {
    ran.map_values(|entry: (usize, J)| (entry.0 as int, entry.1))
}

/// A pool whose workers move one at a time, when they are told to. The
/// handle of a worker's thread is the worker's index.
pub struct Simulation<J> {
    pool: ThreadPool<usize>,
    channel: Channel<J>,
    loops: Vec<WorkerLoop>,
    busy: Vec<bool>,
    joining: Vec<usize>,
    state: Ghost<SystemState<J>>,
    history: Ghost<Seq<Step<J>>>,
}

impl<J> View for Simulation<J> {
    type V = SystemState<J>;

    closed spec fn view(&self) -> SystemState<J> {
        self.state@
    }
}

impl<J> Simulation<J> {
    /// The moves made so far, oldest first.
    pub closed spec fn history(&self) -> Seq<Step<J>> {
        self.history@
    }

    /// The parts agree with each other and with the state that they stand
    /// for, which is the one that the moves made so far lead to.
    pub closed spec fn wf(&self) -> bool {
        &&& self@.inv()
        &&& valid(SystemState::<J>::init(self@.size()), self.history@)
        &&& self@ == run(SystemState::<J>::init(self@.size()), self.history@)
        &&& self.pool.wf()
        &&& self.pool@.len() == self@.size()
        &&& self.pool.is_open() == self@.open
        &&& self.channel@ == self@.queue()
        &&& self.loops@.len() == self@.size()
        &&& self.busy@.len() == self@.size()
        &&& self@.open ==> forall|i: int|
            0 <= i < self@.size() ==> #[trigger] self.pool.threads()[i] == i
        &&& !self@.open ==> self.joining@.len() == self@.size()
        &&& !self@.open ==> forall|i: int|
            0 <= i < self@.size() ==> #[trigger] self.joining@[i] == i
        &&& forall|i: int| 0 <= i < self@.size() ==> (#[trigger] self.loops@[i]).id() == i
        &&& forall|i: int|
            0 <= i < self@.size() && #[trigger] self.busy@[i] ==> self.loops@[i].state()
                == WorkerState::Running
        &&& forall|i: int|
            0 <= i < self@.size() ==> (#[trigger] self@.phases[i]) == phase_of(
                self.loops@[i].state(),
                self.busy@[i],
            )
    }

    /// The state of a simulation is the one that its history leads to from a
    /// pool that has just been created, each move of the history being one
    /// that could be taken.
    pub proof fn lemma_wf_reachable(&self)
        requires
            self.wf(),
        ensures
            self@.inv(),
            valid(SystemState::<J>::init(self@.size()), self.history()),
            self@ == run(SystemState::<J>::init(self@.size()), self.history()),
    {
    }

    /// The jobs that the workers of a simulation took, in the order in which
    /// they took them, followed by the jobs that still wait on its channel,
    /// are the jobs that were submitted to it, in the order of submission.
    pub proof fn law_every_job_accounted_for(&self)
        requires
            self.wf(),
        ensures
            jobs_of(self@.delivered) + self@.pending == submitted(self.history()),
    {
        law_every_job_delivered_once::<J>(self@.size(), self.history());
    }

    /// A step that can be taken in the state that a history leads to makes a
    /// history that leads to the next state.
    proof fn lemma_record(state: SystemState<J>, history: Seq<Step<J>>, step: Step<J>)
        requires
            state.inv(),
            state.enabled(step),
            valid(SystemState::<J>::init(state.size()), history),
            state == run(SystemState::<J>::init(state.size()), history),
        ensures
            state.next(step).inv(),
            state.next(step).size() == state.size(),
            valid(SystemState::<J>::init(state.size()), history.push(step)),
            state.next(step) == run(SystemState::<J>::init(state.size()), history.push(step)),
    {
        lemma_step_preserves_inv(state, step);
        lemma_run_push(SystemState::<J>::init(state.size()), history, step);
    }

    /// A pool of `size` workers, all of them waiting, and an empty channel.
    pub fn new(size: usize) -> (simulation: Simulation<J>)
        requires
            size > 0,
        ensures
            simulation.wf(),
            simulation@ == SystemState::<J>::init(size as nat),
            simulation.history() == Seq::<Step<J>>::empty(),
    {
        let spawn = |id: usize| -> (thread: usize)
            ensures
                thread == id,
            { id };
        let pool = ThreadPool::new(size, spawn);
        let mut loops: Vec<WorkerLoop> = Vec::with_capacity(size);
        let mut busy: Vec<bool> = Vec::with_capacity(size);
        let mut id: usize = 0;
        while id < size
            invariant
                id <= size,
                loops@.len() == id,
                busy@.len() == id,
                forall|i: int| 0 <= i < id ==> (#[trigger] loops@[i]).id() == i,
                forall|i: int|
                    0 <= i < id ==> (#[trigger] loops@[i]).state() == WorkerState::Running,
                forall|i: int| 0 <= i < id ==> !(#[trigger] busy@[i]),
            decreases size - id,
        {
            loops.push(WorkerLoop::new(id));
            busy.push(false);
            id += 1;
        }
        let ghost state = SystemState::<J>::init(size as nat);
        let channel = Channel::new();
        proof {
            lemma_init_inv::<J>(size as nat);
            assert(channel@ =~= state.queue());
        }
        Simulation {
            pool,
            channel,
            loops,
            busy,
            joining: Vec::new(),
            state: Ghost(state),
            history: Ghost(Seq::empty()),
        }
    }

    /// The number of workers.
    pub fn size(&self) -> (size: usize)
        requires
            self.wf(),
        ensures
            size == self@.size(),
    {
        self.pool.size()
    }

    /// Whether the pool still takes jobs.
    pub fn is_open(&self) -> (open: bool)
        requires
            self.wf(),
        ensures
            open == self@.open,
    {
        self.pool.is_open()
    }

    /// How many messages wait on the channel.
    pub fn backlog(&self) -> (waiting: usize)
        requires
            self.wf(),
        ensures
            waiting == self@.pending.len() + self@.signals,
    {
        self.channel.len()
    }

    /// Where worker `worker` stands.
    pub fn phase(&self, worker: usize) -> (phase: Phase)
        requires
            self.wf(),
            worker < self@.size(),
        ensures
            phase == self@.phases[worker as int],
    {
        if !self.loops[worker].is_running() {
            Phase::Terminated
        } else if self.busy[worker] {
            Phase::Busy
        } else {
            Phase::Idle
        }
    }

    /// Submits `job`: the pool wraps it, and the message goes on the channel.
    pub fn execute(&mut self, job: J)
        requires
            old(self).wf(),
            old(self)@.open,
        ensures
            final(self).wf(),
            final(self)@ == old(self)@.next(Step::Submit(job)),
            final(self).history() == old(self).history().push(Step::Submit(job)),
    {
        let message = self.pool.execute(job);
        self.channel.send(message);
        proof {
            assert(self.channel@ =~= self@.next(Step::Submit(job)).queue());
            Self::lemma_record(self@, self.history@, Step::Submit(job));
            self.state@ = self@.next(Step::Submit(job));
            self.history@ = self.history@.push(Step::Submit(job));
        }
    }

    /// Shuts the pool down: its terminate signals go on the channel, one for
    /// each worker, and its threads are kept to be waited for. The workers
    /// leave as they come to take the signals.
    pub fn shutdown(&mut self)
        requires
            old(self).wf(),
            old(self)@.open,
        ensures
            final(self).wf(),
            final(self)@ == old(self)@.next(Step::ShutDown),
            final(self).history() == old(self).history().push(Step::ShutDown),
    {
        let ghost before = self.channel@;
        let plan: Shutdown<J, usize> = self.pool.shutdown();
        let signals = plan.signals;
        self.joining = plan.threads;
        let ghost sent = signals@;
        for signal in iter: signals
            invariant
                iter.seq() == sent,
                self.channel@ == before + sent.subrange(0, iter.index() as int),
                self.state == old(self).state,
                self.history == old(self).history,
                self.loops == old(self).loops,
                self.busy == old(self).busy,
                self.joining@ == old(self).pool.threads(),
                self.pool.wf(),
                self.pool.is_shut_down(),
                self.pool@.len() == old(self).pool@.len(),
        {
            self.channel.send(signal);
        }
        proof {
            assert(self.channel@ =~= self@.next(Step::ShutDown).queue());
            assert(!self.pool.is_open()) by {
                assert(self.pool@[0].thread().is_none());
            }
            Self::lemma_record(self@, self.history@, Step::ShutDown);
            self.state@ = self@.next(Step::ShutDown);
            self.history@ = self.history@.push(Step::ShutDown);
        }
    }

    /// Lets worker `worker` take the oldest message off the channel, and
    /// returns what the worker does with it. Returns `None`, and changes
    /// nothing, where the worker takes no message: it is none of the pool's,
    /// it has left its loop, it is in the middle of a job, or the channel is
    /// empty.
    pub fn deliver(&mut self, worker: usize) -> (action: Option<Action<J>>)
        requires
            old(self).wf(),
        ensures
            final(self).wf(),
            action.is_some() == old(self)@.can_deliver(worker as int),
            action.is_some() ==> action.unwrap() == action_for(old(self)@.queue().first()),
            action.is_some() ==> final(self)@ == old(self)@.next(Step::Deliver(worker as int)),
            action.is_some() ==> final(self).history() == old(self).history().push(
                Step::Deliver(worker as int),
            ),
            action.is_none() ==> final(self)@ == old(self)@,
            action.is_none() ==> final(self).history() == old(self).history(),
    {
        if worker >= self.loops.len() {
            return None;
        }
        if !self.loops[worker].is_running() || self.busy[worker] {
            return None;
        }
        match self.channel.try_recv() {
            None => None,
            Some(message) => {
                let ghost step = Step::<J>::Deliver(worker as int);
                proof {
                    assert(self.channel@ =~= self@.next(step).queue());
                }
                let action = self.loops[worker].on_message(message);
                match action {
                    Action::Run(job) => {
                        self.busy[worker] = true;
                        proof {
                            Self::lemma_record(self@, self.history@, step);
                            self.state@ = self@.next(step);
                            self.history@ = self.history@.push(step);
                        }
                        Some(Action::Run(job))
                    },
                    Action::Exit => {
                        proof {
                            Self::lemma_record(self@, self.history@, step);
                            self.state@ = self@.next(step);
                            self.history@ = self.history@.push(step);
                        }
                        Some(Action::Exit)
                    },
                }
            },
        }
    }

    /// Tells the simulation that worker `worker` has come to the end of its
    /// job, so that it waits again. Returns `false`, and changes nothing,
    /// where the worker is not in the middle of a job. A worker of which
    /// this is never told stays in the middle of its job: that is a job
    /// that does not return, or one that failed and ended the worker's
    /// thread.
    pub fn complete(&mut self, worker: usize) -> (completed: bool)
        requires
            old(self).wf(),
        ensures
            final(self).wf(),
            completed == old(self)@.can_complete(worker as int),
            completed ==> final(self)@ == old(self)@.next(Step::Complete(worker as int)),
            completed ==> final(self).history() == old(self).history().push(
                Step::Complete(worker as int),
            ),
            !completed ==> final(self)@ == old(self)@,
            !completed ==> final(self).history() == old(self).history(),
    {
        if worker >= self.busy.len() {
            return false;
        }
        if !self.busy[worker] {
            return false;
        }
        self.busy[worker] = false;
        proof {
            Self::lemma_record(self@, self.history@, Step::Complete(worker as int));
            self.state@ = self@.next(Step::Complete(worker as int));
            self.history@ = self.history@.push(Step::Complete(worker as int));
        }
        true
    }

    /// Waits for each of the threads that the shutdown left, in their order,
    /// which is that of the workers' creation. The worker that is waited for
    /// completes the job it is in, then takes message after message,
    /// completing each job it takes, until it has taken its terminate
    /// signal; no other worker moves meanwhile. So the first worker takes
    /// every job that is pending. Returns the jobs that were taken, oldest
    /// first, each with the index of its worker. When this returns every
    /// worker has left its loop and the channel is empty.
    pub fn join(&mut self) -> (ran: Vec<(usize, J)>)
        requires
            old(self).wf(),
            !old(self)@.open,
        ensures
            final(self).wf(),
            !final(self)@.open,
            final(self)@.size() == old(self)@.size(),
            final(self)@.all_terminated(),
            final(self)@.pending.len() == 0,
            final(self)@.signals == 0,
            final(self)@.delivered == old(self)@.delivered + taken(ran@),
            jobs_of(taken(ran@)) == old(self)@.pending,
            forall|k: int| 0 <= k < ran@.len() ==> (#[trigger] ran@[k]).0 == 0,
            old(self).history().is_prefix_of(final(self).history()),
            submitted(final(self).history()) == submitted(old(self).history()),
    {
        let size: usize = self.joining.len();
        let mut ran: Vec<(usize, J)> = Vec::new();
        let mut next: usize = 0;
        while next < size
            invariant
                self.wf(),
                !self@.open,
                size == self@.size(),
                size == old(self)@.size(),
                next <= size,
                forall|i: int| 0 <= i < next ==> (#[trigger] self@.phases[i]) is Terminated,
                self@.delivered == old(self)@.delivered + taken(ran@),
                jobs_of(taken(ran@)) + self@.pending == old(self)@.pending,
                forall|k: int| 0 <= k < ran@.len() ==> (#[trigger] ran@[k]).0 == 0,
                old(self).history().is_prefix_of(self.history()),
                submitted(self.history()) == submitted(old(self).history()),
            decreases size - next,
        {
            let worker: usize = self.joining[next];
            while self.loops[worker].is_running()
                invariant
                    self.wf(),
                    !self@.open,
                    size == self@.size(),
                    size == old(self)@.size(),
                    worker < size,
                    worker == next,
                    forall|i: int| 0 <= i < next ==> (#[trigger] self@.phases[i]) is Terminated,
                    self@.delivered == old(self)@.delivered + taken(ran@),
                    jobs_of(taken(ran@)) + self@.pending == old(self)@.pending,
                    forall|k: int| 0 <= k < ran@.len() ==> (#[trigger] ran@[k]).0 == 0,
                    old(self).history().is_prefix_of(self.history()),
                    submitted(self.history()) == submitted(old(self).history()),
                decreases self@.work_left(),
            {
                let ghost before = self@;
                let ghost take = Step::<J>::Deliver(worker as int);
                let ghost done = Step::<J>::Complete(worker as int);
                if self.busy[worker] {
                    proof {
                        lemma_step_brings_work_down(before, done);
                        lemma_run_push(before, self.history(), done);
                    }
                    self.complete(worker);
                } else {
                    proof {
                        lemma_live_count_zero(before.phases);
                        lemma_live_count_full(before.phases);
                        lemma_step_brings_work_down(before, take);
                        lemma_run_push(before, self.history(), take);
                        if worker > 0 {
                            assert(before.phases[0] is Terminated);
                        }
                    }
                    match self.deliver(worker) {
                        Some(Action::Run(job)) => {
                            proof {
                                lemma_step_brings_work_down(self@, done);
                                lemma_run_push(before, self.history(), done);
                            }
                            ran.push((worker, job));
                            self.complete(worker);
                        },
                        Some(Action::Exit) => {},
                        None => {},
                    }
                }
            }
            next += 1;
        }
        proof {
            lemma_live_count_zero(self@.phases);
        }
        ran
    }
}

} // verus!
