//! What holds of the pool whatever the order in which its workers take
//! their turns.

use vstd::prelude::*;
use crate::model::{
    busy_count, jobs_of, live_count, run, solo, submitted, valid, Phase, Step, SystemState,
};

verus! {

/// 1 for a worker that is still in its loop, 0 for one that has left it.
pub open spec fn live(phase: Phase) -> nat {
    if phase is Terminated {
        0
    } else {
        1
    }
}

/// 1 for a worker in the middle of a job, 0 for any other.
pub open spec fn busy(phase: Phase) -> nat {
    if phase is Busy {
        1
    } else {
        0
    }
}

/// A change of one worker's phase changes the number of live workers by
/// what that worker adds to it.
pub proof fn lemma_live_count_update(phases: Seq<Phase>, worker: int, phase: Phase)
    requires
        0 <= worker < phases.len(),
    ensures
        live_count(phases.update(worker, phase)) + live(phases[worker]) == live_count(phases)
            + live(phase),
    decreases phases.len(),
{
    let changed = phases.update(worker, phase);
    if worker == phases.len() - 1 {
        assert(changed.drop_last() =~= phases.drop_last());
    } else {
        assert(changed.drop_last() =~= phases.drop_last().update(worker, phase));
        lemma_live_count_update(phases.drop_last(), worker, phase);
    }
}

/// A change of one worker's phase changes the number of busy workers by
/// what that worker adds to it.
pub proof fn lemma_busy_count_update(phases: Seq<Phase>, worker: int, phase: Phase)
    requires
        0 <= worker < phases.len(),
    ensures
        busy_count(phases.update(worker, phase)) + busy(phases[worker]) == busy_count(phases)
            + busy(phase),
    decreases phases.len(),
{
    let changed = phases.update(worker, phase);
    if worker == phases.len() - 1 {
        assert(changed.drop_last() =~= phases.drop_last());
    } else {
        assert(changed.drop_last() =~= phases.drop_last().update(worker, phase));
        lemma_busy_count_update(phases.drop_last(), worker, phase);
    }
}

/// No more workers are live than there are workers, and all of them are
/// live exactly when none has left its loop.
pub proof fn lemma_live_count_full(phases: Seq<Phase>)
    ensures
        live_count(phases) <= phases.len(),
        live_count(phases) == phases.len() <==> forall|i: int|
            0 <= i < phases.len() ==> !((#[trigger] phases[i]) is Terminated),
    decreases phases.len(),
{
    if phases.len() > 0 {
        let front = phases.drop_last();
        lemma_live_count_full(front);
        if live_count(phases) == phases.len() {
            assert forall|i: int| 0 <= i < phases.len() implies !((#[trigger] phases[i])
                is Terminated) by {
                if i < phases.len() - 1 {
                    assert(front[i] == phases[i]);
                }
            }
        }
    }
}

/// No worker is live exactly when every worker has left its loop.
pub proof fn lemma_live_count_zero(phases: Seq<Phase>)
    ensures
        live_count(phases) == 0 <==> forall|i: int|
            0 <= i < phases.len() ==> (#[trigger] phases[i]) is Terminated,
    decreases phases.len(),
{
    if phases.len() > 0 {
        let front = phases.drop_last();
        lemma_live_count_zero(front);
        if live_count(phases) == 0 {
            assert forall|i: int| 0 <= i < phases.len() implies (#[trigger] phases[i])
                is Terminated by {
                if i < phases.len() - 1 {
                    assert(front[i] == phases[i]);
                }
            }
        }
    }
}

/// A pool that has just been created is in a state that a pool can reach.
pub proof fn lemma_init_inv<J>(size: nat)
    requires
        size > 0,
    ensures
        SystemState::<J>::init(size).inv(),
{
    let state = SystemState::<J>::init(size);
    lemma_live_count_full(state.phases);
}

/// A step that can be taken leads from a state that a pool can reach to
/// another.
pub proof fn lemma_step_preserves_inv<J>(state: SystemState<J>, step: Step<J>)
    requires
        state.inv(),
        state.enabled(step),
    ensures
        state.next(step).inv(),
        state.next(step).size() == state.size(),
{
    match step {
        Step::Submit(job) => {},
        Step::ShutDown => {},
        Step::Deliver(worker) => {
            if state.pending.len() > 0 {
                lemma_live_count_update(state.phases, worker, Phase::Busy);
            } else {
                lemma_live_count_update(state.phases, worker, Phase::Terminated);
            }
        },
        Step::Complete(worker) => {
            lemma_live_count_update(state.phases, worker, Phase::Idle);
        },
    }
}

/// Steps that can be taken one after another lead from a state that a pool
/// can reach to another.
pub proof fn lemma_run_preserves_inv<J>(state: SystemState<J>, trace: Seq<Step<J>>)
    requires
        state.inv(),
        valid(state, trace),
    ensures
        run(state, trace).inv(),
        run(state, trace).size() == state.size(),
    decreases trace.len(),
{
    if trace.len() > 0 {
        lemma_step_preserves_inv(state, trace.first());
        lemma_run_preserves_inv(state.next(trace.first()), trace.drop_first());
    }
}

/// The jobs that a single step submits.
pub open spec fn submitted_by<J>(step: Step<J>) -> Seq<J> {
    match step {
        Step::Submit(job) => seq![job],
        _ => Seq::empty(),
    }
}

/// One more step at the end of a trace is one more step from the state that
/// the trace leads to.
pub proof fn lemma_run_push<J>(state: SystemState<J>, trace: Seq<Step<J>>, step: Step<J>)
    ensures
        run(state, trace.push(step)) == run(state, trace).next(step),
        valid(state, trace.push(step)) == (valid(state, trace) && run(state, trace).enabled(
            step,
        )),
        submitted(trace.push(step)) == submitted(trace) + submitted_by(step),
    decreases trace.len(),
{
    let longer = trace.push(step);
    if trace.len() == 0 {
        assert(longer.drop_first() =~= trace);
        assert(run(state.next(step), trace) == state.next(step));
        assert(valid(state.next(step), trace));
    } else {
        assert(longer.first() == trace.first());
        assert(longer.drop_first() =~= trace.drop_first().push(step));
        lemma_run_push(state.next(trace.first()), trace.drop_first(), step);
    }
}

/// Throughout the life of a pool of any size, whatever the order of the
/// moves, the pool keeps its workers; no terminate signal is sent, and no
/// worker leaves, while the pool is open; and once it has shut down the
/// channel holds exactly one terminate signal for each worker that is still
/// in its loop, behind every job.
pub proof fn law_pool_stays_sound<J>(size: nat, trace: Seq<Step<J>>)
    requires
        size > 0,
        valid(SystemState::<J>::init(size), trace),
    ensures
        run(SystemState::<J>::init(size), trace).inv(),
        run(SystemState::<J>::init(size), trace).size() == size,
{
    lemma_init_inv::<J>(size);
    lemma_run_preserves_inv(SystemState::<J>::init(size), trace);
}

/// Whatever steps are taken, the jobs that were taken off the channel,
/// followed by those that are still on it, are the jobs that were there
/// before, followed by those that the steps submitted.
pub proof fn lemma_run_accounts_for_jobs<J>(state: SystemState<J>, trace: Seq<Step<J>>)
    ensures
        jobs_of(run(state, trace).delivered) + run(state, trace).pending == jobs_of(
            state.delivered,
        ) + state.pending + submitted(trace),
    decreases trace.len(),
{
    if trace.len() > 0 {
        lemma_run_accounts_for_jobs(state.next(trace.first()), trace.drop_first());
    }
}

/// Every job is delivered once, to one worker, in the order of submission:
/// at any moment in the life of a pool of any size, the jobs that workers
/// took off the channel, in the order in which they took them, followed by
/// the jobs that are still on it, are the jobs that were submitted, in the
/// order of their submission. None is lost and none comes twice.
pub proof fn law_every_job_delivered_once<J>(size: nat, trace: Seq<Step<J>>)
    ensures
        jobs_of(run(SystemState::<J>::init(size), trace).delivered) + run(
            SystemState::<J>::init(size),
            trace,
        ).pending == submitted(trace),
{
    let start = SystemState::<J>::init(size);
    lemma_run_accounts_for_jobs(start, trace);
}

/// Every job that a worker took was taken by a worker of the pool.
pub proof fn law_jobs_go_to_workers_of_the_pool<J>(size: nat, trace: Seq<Step<J>>, k: int)
    requires
        size > 0,
        valid(SystemState::<J>::init(size), trace),
        0 <= k < run(SystemState::<J>::init(size), trace).delivered.len(),
    ensures
        0 <= run(SystemState::<J>::init(size), trace).delivered[k].0 < size,
{
    lemma_init_inv::<J>(size);
    lemma_run_preserves_inv(SystemState::<J>::init(size), trace);
}

/// Once the last worker has left its loop, every job that was submitted has
/// been taken by a worker.
pub proof fn law_every_job_taken_before_the_last_worker_leaves<J>(size: nat, trace: Seq<Step<J>>)
    requires
        size > 0,
        valid(SystemState::<J>::init(size), trace),
        run(SystemState::<J>::init(size), trace).all_terminated(),
    ensures
        jobs_of(run(SystemState::<J>::init(size), trace).delivered) == submitted(trace),
{
    let start = SystemState::<J>::init(size);
    let end = run(start, trace);
    lemma_init_inv::<J>(size);
    lemma_run_preserves_inv(start, trace);
    lemma_live_count_zero(end.phases);
    law_every_job_delivered_once::<J>(size, trace);
}

/// Steps that can be taken keep the number of workers.
pub proof fn lemma_run_sizes<J>(state: SystemState<J>, trace: Seq<Step<J>>)
    requires
        valid(state, trace),
    ensures
        run(state, trace).size() == state.size(),
    decreases trace.len(),
{
    if trace.len() > 0 {
        lemma_run_sizes(state.next(trace.first()), trace.drop_first());
    }
}

/// A worker that has left its loop never comes back: whatever moves
/// follow, it takes no further message and stays out.
pub proof fn law_no_way_back_from_terminated<J>(
    state: SystemState<J>,
    trace: Seq<Step<J>>,
    worker: int,
)
    requires
        valid(state, trace),
        0 <= worker < state.size(),
        state.phases[worker] is Terminated,
    ensures
        run(state, trace).phases[worker] is Terminated,
        run(state, trace).size() == state.size(),
        forall|k: int| 0 <= k < trace.len() ==> trace[k] != Step::<J>::Deliver(worker),
    decreases trace.len(),
{
    if trace.len() > 0 {
        let rest = trace.drop_first();
        law_no_way_back_from_terminated(state.next(trace.first()), rest, worker);
        assert forall|k: int| 0 <= k < trace.len() implies trace[k] != Step::<J>::Deliver(
            worker,
        ) by {
            if k > 0 {
                assert(trace[k] == rest[k - 1]);
            }
        }
    }
}

/// A worker leaves its loop on a message: in the life of a pool of any
/// size, each worker that has left its loop has taken a message off the
/// channel.
pub proof fn law_worker_leaves_on_a_message<J>(size: nat, trace: Seq<Step<J>>, worker: int)
    requires
        valid(SystemState::<J>::init(size), trace),
        0 <= worker < size,
        run(SystemState::<J>::init(size), trace).phases[worker] is Terminated,
    ensures
        trace.contains(Step::Deliver(worker)),
    decreases trace.len(),
{
    let start = SystemState::<J>::init(size);
    if trace.len() > 0 {
        let front = trace.drop_last();
        let step = trace.last();
        assert(trace =~= front.push(step));
        lemma_run_push(start, front, step);
        lemma_run_sizes(start, front);
        if run(start, front).phases[worker] is Terminated {
            law_worker_leaves_on_a_message(size, front, worker);
            let k = choose|k: int| 0 <= k < front.len() && front[k] == Step::<J>::Deliver(worker);
            assert(trace[k] == Step::<J>::Deliver(worker));
        } else {
            assert(step == Step::<J>::Deliver(worker));
            assert(trace[trace.len() - 1] == step);
        }
    }
}

/// No worker survives a shutdown: once the pool has shut down and no worker
/// can move any more, every worker has left its loop. A worker that still
/// waited would find its terminate signal on the channel.
pub proof fn law_no_worker_survives_shutdown<J>(state: SystemState<J>)
    requires
        state.inv(),
        !state.open,
        state.quiescent(),
    ensures
        state.all_terminated(),
        state.pending.len() == 0,
        state.signals == 0,
{
    assert forall|worker: int| 0 <= worker < state.size() implies (#[trigger] state.phases[worker])
        is Terminated by {
        assert(!state.can_complete(worker));
        if state.phases[worker] is Idle {
            lemma_live_count_zero(state.phases);
        }
    }
    lemma_live_count_zero(state.phases);
}

/// A shutdown leaves nothing behind: in the life of a pool of any size,
/// once the pool has shut down and no worker can move any more, every
/// worker has left its loop, the channel is empty, and every job that was
/// submitted has been taken by a worker, in the order of submission.
pub proof fn law_shutdown_leaves_nothing_behind<J>(size: nat, trace: Seq<Step<J>>)
    requires
        size > 0,
        valid(SystemState::<J>::init(size), trace),
        !run(SystemState::<J>::init(size), trace).open,
        run(SystemState::<J>::init(size), trace).quiescent(),
    ensures
        run(SystemState::<J>::init(size), trace).all_terminated(),
        run(SystemState::<J>::init(size), trace).queue().len() == 0,
        jobs_of(run(SystemState::<J>::init(size), trace).delivered) == submitted(trace),
{
    let start = SystemState::<J>::init(size);
    lemma_init_inv::<J>(size);
    lemma_run_preserves_inv(start, trace);
    law_no_worker_survives_shutdown(run(start, trace));
    law_every_job_taken_before_the_last_worker_leaves::<J>(size, trace);
}

/// Once the pool has shut down, every move of a worker brings `work_left`
/// down.
pub proof fn lemma_step_brings_work_down<J>(state: SystemState<J>, step: Step<J>)
    requires
        state.inv(),
        !state.open,
        state.enabled(step),
    ensures
        state.next(step).work_left() < state.work_left(),
        !state.next(step).open,
{
    match step {
        Step::Submit(job) => {},
        Step::ShutDown => {},
        Step::Deliver(worker) => {
            if state.pending.len() > 0 {
                lemma_busy_count_update(state.phases, worker, Phase::Busy);
            } else {
                lemma_busy_count_update(state.phases, worker, Phase::Terminated);
            }
        },
        Step::Complete(worker) => {
            lemma_busy_count_update(state.phases, worker, Phase::Idle);
        },
    }
}

/// A shutdown comes to an end: once the pool has shut down, the workers
/// can make no more moves than `work_left` says, in whatever order they
/// take their turns.
pub proof fn law_shutdown_completes<J>(state: SystemState<J>, trace: Seq<Step<J>>)
    requires
        state.inv(),
        !state.open,
        valid(state, trace),
    ensures
        trace.len() + run(state, trace).work_left() <= state.work_left(),
        !run(state, trace).open,
    decreases trace.len(),
{
    if trace.len() > 0 {
        lemma_step_preserves_inv(state, trace.first());
        lemma_step_brings_work_down(state, trace.first());
        law_shutdown_completes(state.next(trace.first()), trace.drop_first());
    }
}

/// A worker that never comes to the end of its job, because the job goes
/// on for ever or because it failed and took the worker's thread with it,
/// holds up no other: while worker `stuck` stays in the middle of a job, a
/// waiting worker `other` of an open pool can on its own take and complete
/// every job that is pending, in order.
pub proof fn law_stuck_worker_holds_up_no_other<J>(state: SystemState<J>, stuck: int, other: int)
    requires
        state.inv(),
        state.open,
        state.can_complete(stuck),
        0 <= other < state.size(),
        state.phases[other] is Idle,
    ensures
        valid(state, solo::<J>(other, state.pending.len())),
        run(state, solo::<J>(other, state.pending.len())).pending.len() == 0,
        run(state, solo::<J>(other, state.pending.len())).delivered == state.delivered
            + state.pending.map_values(|job: J| (other, job)),
        run(state, solo::<J>(other, state.pending.len())).phases == state.phases,
        run(state, solo::<J>(other, state.pending.len())).can_complete(stuck),
    decreases state.pending.len(),
{
    let jobs: nat = state.pending.len();
    let trace = solo::<J>(other, jobs);
    if jobs > 0 {
        let take = Step::<J>::Deliver(other);
        let done = Step::<J>::Complete(other);
        let rest = solo::<J>(other, (jobs - 1) as nat);
        let taken = state.next(take);
        let idle = taken.next(done);
        assert(trace.drop_first().drop_first() =~= rest);
        lemma_step_preserves_inv(state, take);
        assert(idle.phases =~= state.phases);
        law_stuck_worker_holds_up_no_other(idle, stuck, other);
        assert(valid(state, trace) == (state.enabled(take) && valid(taken, trace.drop_first())));
        assert(run(state, trace) == run(taken, trace.drop_first()));
    }
}

} // verus!
