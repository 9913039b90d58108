//! The abstract run model: each task's lifecycle phase, the events a run is
//! made of, and the laws that hold along every valid event sequence. The
//! executor's methods each take one step of this machine; whatever order an
//! unverified scheduler interleaves them in, the lemmas here apply to the
//! trace it produces.

use vstd::prelude::*;

verus! {

/// The lifecycle phase of one task.
#[derive(Debug, Clone, Copy, PartialEq, Eq, Structural)]
pub enum TaskPhase {
    /// Submitted, no permit requested yet.
    Pending,
    /// Holds a permit, capture not yet started.
    Admitted,
    /// Capture in flight, permit held.
    Running,
    /// Result produced, permit given back.
    Completed,
}

/// How many entries of `s` are in phase `p`.
pub open spec fn count_phase(s: Seq<TaskPhase>, p: TaskPhase) -> nat
    decreases s.len(),
{
    if s.len() == 0 {
        0
    } else {
        count_phase(s.drop_last(), p) + if s.last() == p {
            1nat
        } else {
            0nat
        }
    }
}

/// Tasks that hold a permit: admitted or running.
pub open spec fn active_count(s: Seq<TaskPhase>) -> nat {
    count_phase(s, TaskPhase::Admitted) + count_phase(s, TaskPhase::Running)
}

/// Tasks whose capture is in flight.
pub open spec fn running_count(s: Seq<TaskPhase>) -> nat {
    count_phase(s, TaskPhase::Running)
}

/// Tasks that have produced their result.
pub open spec fn completed_count(s: Seq<TaskPhase>) -> nat {
    count_phase(s, TaskPhase::Completed)
}

pub proof fn lemma_count_le_len(s: Seq<TaskPhase>, p: TaskPhase)
    ensures
        count_phase(s, p) <= s.len(),
    decreases s.len(),
{
    if s.len() > 0 {
        lemma_count_le_len(s.drop_last(), p);
    }
}

pub proof fn lemma_count_absent(s: Seq<TaskPhase>, p: TaskPhase)
    requires
        forall|i: int| 0 <= i < s.len() ==> s[i] != p,
    ensures
        count_phase(s, p) == 0,
    decreases s.len(),
{
    if s.len() > 0 {
        lemma_count_absent(s.drop_last(), p);
    }
}

pub proof fn lemma_count_full(s: Seq<TaskPhase>, p: TaskPhase)
    requires
        forall|i: int| 0 <= i < s.len() ==> s[i] == p,
    ensures
        count_phase(s, p) == s.len(),
    decreases s.len(),
{
    if s.len() > 0 {
        lemma_count_full(s.drop_last(), p);
    }
}

pub proof fn lemma_count_update(s: Seq<TaskPhase>, i: int, v: TaskPhase, p: TaskPhase)
    requires
        0 <= i < s.len(),
    ensures
        count_phase(s.update(i, v), p) + (if s[i] == p {
            1nat
        } else {
            0nat
        }) == count_phase(s, p) + (if v == p {
            1nat
        } else {
            0nat
        }),
    decreases s.len(),
{
    let t = s.update(i, v);
    if i == s.len() - 1 {
        assert(t.drop_last() =~= s.drop_last());
    } else {
        assert(t.drop_last() =~= s.drop_last().update(i, v));
        lemma_count_update(s.drop_last(), i, v, p);
    }
}

/// If the entry at `i` is not in phase `p`, fewer than all entries are.
pub proof fn lemma_count_missing_one(s: Seq<TaskPhase>, p: TaskPhase, i: int)
    requires
        0 <= i < s.len(),
        s[i] != p,
    ensures
        count_phase(s, p) < s.len(),
    decreases s.len(),
{
    if i == s.len() - 1 {
        lemma_count_le_len(s.drop_last(), p);
    } else {
        lemma_count_missing_one(s.drop_last(), p, i);
    }
}

/// The state of one run, abstracted to what the laws speak of.
#[verifier::ext_equal]
pub struct RunModel {
    /// Each submitted task's phase, in submission order.
    pub phases: Seq<TaskPhase>,
    /// Tasks recorded as succeeded.
    pub success: int,
    /// Tasks recorded as failed.
    pub fail: int,
    /// Permits currently outstanding.
    pub held: int,
    /// The configured concurrency limit.
    pub limit: int,
    /// Whether the permit pool has been shut down.
    pub closed: bool,
}

/// The state a run of `n` tasks starts in.
pub open spec fn init_model(n: nat, limit: int) -> RunModel {
    RunModel {
        phases: Seq::new(n, |i: int| TaskPhase::Pending),
        success: 0,
        fail: 0,
        held: 0,
        limit,
        closed: false,
    }
}

/// One observable step of a run.
pub enum RunEvent {
    /// Task `i` was granted a permit.
    Admitted(int),
    /// Task `i` asked for a permit from a closed pool and was completed as
    /// a failure on the spot.
    AdmitClosed(int),
    /// Task `i` started its capture.
    Begin(int),
    /// Task `i`'s capture returned; the flag tells whether it captured.
    Complete(int, bool),
    /// The permit pool was shut down.
    Close,
}

/// Whether `e` may fire in state `m`. An admission attempt against a full
/// pool changes nothing and is no event.
pub open spec fn enabled(m: RunModel, e: RunEvent) -> bool {
    match e {
        RunEvent::Admitted(i) => 0 <= i < m.phases.len() && m.phases[i] is Pending && !m.closed
            && m.held < m.limit,
        RunEvent::AdmitClosed(i) => 0 <= i < m.phases.len() && m.phases[i] is Pending && m.closed,
        RunEvent::Begin(i) => 0 <= i < m.phases.len() && m.phases[i] is Admitted,
        RunEvent::Complete(i, captured) => 0 <= i < m.phases.len() && m.phases[i] is Running,
        RunEvent::Close => true,
    }
}

/// The state after `e` fires in `m`.
pub open spec fn step(m: RunModel, e: RunEvent) -> RunModel {
    match e {
        RunEvent::Admitted(i) => RunModel {
            phases: m.phases.update(i, TaskPhase::Admitted),
            held: m.held + 1,
            ..m
        },
        RunEvent::AdmitClosed(i) => RunModel {
            phases: m.phases.update(i, TaskPhase::Completed),
            fail: m.fail + 1,
            ..m
        },
        RunEvent::Begin(i) => RunModel { phases: m.phases.update(i, TaskPhase::Running), ..m },
        RunEvent::Complete(i, captured) => RunModel {
            phases: m.phases.update(i, TaskPhase::Completed),
            held: m.held - 1,
            success: m.success + if captured {
                1int
            } else {
                0int
            },
            fail: m.fail + if captured {
                0int
            } else {
                1int
            },
            ..m
        },
        RunEvent::Close => RunModel { closed: true, ..m },
    }
}

/// The state after the whole event sequence `es` has fired in `m`.
pub open spec fn run(m: RunModel, es: Seq<RunEvent>) -> RunModel
    decreases es.len(),
{
    if es.len() == 0 {
        m
    } else {
        step(run(m, es.drop_last()), es.last())
    }
}

/// Every event of `es` is enabled in the state the ones before it lead to.
pub open spec fn valid_trace(m: RunModel, es: Seq<RunEvent>) -> bool
    decreases es.len(),
{
    es.len() == 0 || (valid_trace(m, es.drop_last()) && enabled(run(m, es.drop_last()), es.last()))
}

/// The run's internal invariant: permits track the tasks that hold one and
/// never exceed the limit, and the two counters track the completed tasks.
pub open spec fn inv(m: RunModel) -> bool {
    &&& 1 <= m.limit
    &&& m.held == active_count(m.phases)
    &&& m.held <= m.limit
    &&& 0 <= m.success
    &&& 0 <= m.fail
    &&& m.success + m.fail == completed_count(m.phases)
}

/// Every task has produced its result.
pub open spec fn all_completed(m: RunModel) -> bool {
    forall|i: int| 0 <= i < m.phases.len() ==> m.phases[i] is Completed
}

pub proof fn lemma_inv_init(n: nat, limit: int)
    requires
        1 <= limit,
    ensures
        inv(init_model(n, limit)),
{
    let m = init_model(n, limit);
    lemma_count_absent(m.phases, TaskPhase::Admitted);
    lemma_count_absent(m.phases, TaskPhase::Running);
    lemma_count_absent(m.phases, TaskPhase::Completed);
}

pub proof fn lemma_inv_step(m: RunModel, e: RunEvent)
    requires
        inv(m),
        enabled(m, e),
    ensures
        inv(step(m, e)),
{
    match e {
        RunEvent::Admitted(i) => {
            lemma_count_update(m.phases, i, TaskPhase::Admitted, TaskPhase::Admitted);
            lemma_count_update(m.phases, i, TaskPhase::Admitted, TaskPhase::Running);
            lemma_count_update(m.phases, i, TaskPhase::Admitted, TaskPhase::Completed);
        },
        RunEvent::AdmitClosed(i) => {
            lemma_count_update(m.phases, i, TaskPhase::Completed, TaskPhase::Admitted);
            lemma_count_update(m.phases, i, TaskPhase::Completed, TaskPhase::Running);
            lemma_count_update(m.phases, i, TaskPhase::Completed, TaskPhase::Completed);
        },
        RunEvent::Begin(i) => {
            lemma_count_update(m.phases, i, TaskPhase::Running, TaskPhase::Admitted);
            lemma_count_update(m.phases, i, TaskPhase::Running, TaskPhase::Running);
            lemma_count_update(m.phases, i, TaskPhase::Running, TaskPhase::Completed);
        },
        RunEvent::Complete(i, captured) => {
            lemma_count_update(m.phases, i, TaskPhase::Completed, TaskPhase::Admitted);
            lemma_count_update(m.phases, i, TaskPhase::Completed, TaskPhase::Running);
            lemma_count_update(m.phases, i, TaskPhase::Completed, TaskPhase::Completed);
        },
        RunEvent::Close => {},
    }
}

pub proof fn lemma_inv_run(m: RunModel, es: Seq<RunEvent>)
    requires
        inv(m),
        valid_trace(m, es),
    ensures
        inv(run(m, es)),
    decreases es.len(),
{
    if es.len() > 0 {
        lemma_inv_run(m, es.drop_last());
        lemma_inv_step(run(m, es.drop_last()), es.last());
    }
}

/// Steps change neither the task count, the limit, nor (but for `Close`)
/// anything a closed pool forgets.
pub proof fn lemma_run_shape(m: RunModel, es: Seq<RunEvent>)
    requires
        valid_trace(m, es),
    ensures
        run(m, es).phases.len() == m.phases.len(),
        run(m, es).limit == m.limit,
    decreases es.len(),
{
    if es.len() > 0 {
        lemma_run_shape(m, es.drop_last());
    }
}

/// A prefix of a valid trace is a valid trace.
pub proof fn lemma_valid_prefix(m: RunModel, es: Seq<RunEvent>, k: int)
    requires
        valid_trace(m, es),
        0 <= k <= es.len(),
    ensures
        valid_trace(m, es.take(k)),
    decreases es.len(),
{
    if k == es.len() {
        assert(es.take(k) =~= es);
    } else {
        assert(es.drop_last().take(k) =~= es.take(k));
        lemma_valid_prefix(m, es.drop_last(), k);
    }
}

} // verus!
