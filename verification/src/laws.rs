//! Laws of a whole run, stated over the abstract machine: every theorem
//! here holds of every valid event sequence, whatever order an unverified
//! scheduler fires the events in.

use vstd::prelude::*;

use crate::machine::all_completed;
use crate::machine::completed_count;
use crate::machine::init_model;
use crate::machine::inv;
use crate::machine::lemma_count_absent;
use crate::machine::lemma_count_full;
use crate::machine::lemma_count_update;
use crate::machine::lemma_inv_init;
use crate::machine::lemma_inv_run;
use crate::machine::lemma_run_shape;
use crate::machine::lemma_valid_prefix;
use crate::machine::run;
use crate::machine::running_count;
use crate::machine::valid_trace;
use crate::machine::RunEvent;
use crate::machine::RunModel;
use crate::machine::TaskPhase;

verus! {

/// Whether firing `e` delivers task `i`'s result to the caller's callback.
/// That happens exactly on `i`'s completion: an ordinary capture return, or
/// an admission attempt against a closed pool.
pub open spec fn fires_callback(e: RunEvent, i: int) -> bool {
    ||| e == RunEvent::AdmitClosed(i)
    ||| (e matches RunEvent::Complete(j, _c) && j == i)
}

/// Whether firing `e` delivers any task's result to the callback.
pub open spec fn is_callback_event(e: RunEvent) -> bool {
    e is AdmitClosed || e is Complete
}

/// How often the callback fires for task `i` along `es`.
pub open spec fn callbacks_for(es: Seq<RunEvent>, i: int) -> nat
    decreases es.len(),
{
    if es.len() == 0 {
        0
    } else {
        callbacks_for(es.drop_last(), i) + if fires_callback(es.last(), i) {
            1nat
        } else {
            0nat
        }
    }
}

/// How often the callback fires at all along `es`.
pub open spec fn callback_event_count(es: Seq<RunEvent>) -> nat
    decreases es.len(),
{
    if es.len() == 0 {
        0
    } else {
        callback_event_count(es.drop_last()) + if is_callback_event(es.last()) {
            1nat
        } else {
            0nat
        }
    }
}

/// Along a valid trace, the callback has fired for task `i` exactly once if
/// `i` has completed, and not at all before that.
pub proof fn lemma_callbacks_track_completion(m: RunModel, es: Seq<RunEvent>, i: int)
    requires
        valid_trace(m, es),
        0 <= i < m.phases.len(),
        !(m.phases[i] is Completed),
    ensures
        callbacks_for(es, i) == (if run(m, es).phases[i] is Completed {
            1nat
        } else {
            0nat
        }),
    decreases es.len(),
{
    if es.len() > 0 {
        lemma_callbacks_track_completion(m, es.drop_last(), i);
        lemma_run_shape(m, es.drop_last());
    }
}

/// Along a valid trace, each callback delivery marks exactly one new
/// completion.
pub proof fn lemma_callbacks_track_completed_count(m: RunModel, es: Seq<RunEvent>)
    requires
        valid_trace(m, es),
    ensures
        callback_event_count(es) + completed_count(m.phases) == completed_count(run(m, es).phases),
    decreases es.len(),
{
    if es.len() > 0 {
        let prev = run(m, es.drop_last());
        lemma_callbacks_track_completed_count(m, es.drop_last());
        match es.last() {
            RunEvent::Admitted(i) => {
                lemma_count_update(prev.phases, i, TaskPhase::Admitted, TaskPhase::Completed);
            },
            RunEvent::AdmitClosed(i) => {
                lemma_count_update(prev.phases, i, TaskPhase::Completed, TaskPhase::Completed);
            },
            RunEvent::Begin(i) => {
                lemma_count_update(prev.phases, i, TaskPhase::Running, TaskPhase::Completed);
            },
            RunEvent::Complete(i, _c) => {
                lemma_count_update(prev.phases, i, TaskPhase::Completed, TaskPhase::Completed);
            },
            RunEvent::Close => {},
        }
    }
}

/// For a run of `N` tasks that completes, the callback fires exactly `N`
/// times: once per task, with no duplicates and no omissions.
pub proof fn theorem_callback_exactly_once(n: nat, limit: int, es: Seq<RunEvent>)
    requires
        1 <= limit,
        valid_trace(init_model(n, limit), es),
        all_completed(run(init_model(n, limit), es)),
    ensures
        forall|i: int| 0 <= i < n ==> callbacks_for(es, i) == 1,
        callback_event_count(es) == n,
{
    let m0 = init_model(n, limit);
    let m1 = run(m0, es);
    lemma_run_shape(m0, es);
    assert forall|i: int| 0 <= i < n implies callbacks_for(es, i) == 1 by {
        lemma_callbacks_track_completion(m0, es, i);
    }
    lemma_callbacks_track_completed_count(m0, es);
    lemma_count_absent(m0.phases, TaskPhase::Completed);
    lemma_count_full(m1.phases, TaskPhase::Completed);
}

/// At every instant of a valid run, at most `limit` captures are in flight.
pub proof fn theorem_running_bounded(n: nat, limit: int, es: Seq<RunEvent>, k: int)
    requires
        1 <= limit,
        valid_trace(init_model(n, limit), es),
        0 <= k <= es.len(),
    ensures
        running_count(run(init_model(n, limit), es.take(k)).phases) <= limit,
{
    let m0 = init_model(n, limit);
    lemma_valid_prefix(m0, es, k);
    lemma_inv_init(n, limit);
    lemma_inv_run(m0, es.take(k));
    lemma_run_shape(m0, es.take(k));
}

/// With a limit of one, the permit pool serializes captures: at no instant
/// are two captures concurrently in flight.
pub proof fn theorem_limit_one_serializes(n: nat, es: Seq<RunEvent>, k: int)
    requires
        valid_trace(init_model(n, 1), es),
        0 <= k <= es.len(),
    ensures
        running_count(run(init_model(n, 1), es.take(k)).phases) <= 1,
{
    theorem_running_bounded(n, 1, es, k);
}

/// At every instant of a valid run, the two counters together count exactly
/// the completed tasks, never more than the tasks submitted; for a run that
/// completes, their sum is exactly `N`.
pub proof fn theorem_counters_track_completion(n: nat, limit: int, es: Seq<RunEvent>, k: int)
    requires
        1 <= limit,
        valid_trace(init_model(n, limit), es),
        0 <= k <= es.len(),
    ensures
        run(init_model(n, limit), es.take(k)).success + run(init_model(n, limit), es.take(k)).fail
            == completed_count(run(init_model(n, limit), es.take(k)).phases),
        run(init_model(n, limit), es.take(k)).success + run(init_model(n, limit), es.take(k)).fail
            <= n,
        all_completed(run(init_model(n, limit), es)) && k == es.len() ==> run(
            init_model(n, limit),
            es.take(k),
        ).success + run(init_model(n, limit), es.take(k)).fail == n,
{
    let m0 = init_model(n, limit);
    let m = run(m0, es.take(k));
    lemma_valid_prefix(m0, es, k);
    lemma_inv_init(n, limit);
    lemma_inv_run(m0, es.take(k));
    lemma_run_shape(m0, es.take(k));
    crate::machine::lemma_count_le_len(m.phases, TaskPhase::Completed);
    if k == es.len() {
        assert(es.take(k) =~= es);
        if all_completed(run(m0, es)) {
            lemma_count_full(m.phases, TaskPhase::Completed);
        }
    }
}

/// How many events of `es` satisfy `f`.
pub open spec fn count_events(es: Seq<RunEvent>, f: spec_fn(RunEvent) -> bool) -> nat
    decreases es.len(),
{
    if es.len() == 0 {
        0
    } else {
        count_events(es.drop_last(), f) + if f(es.last()) {
            1nat
        } else {
            0nat
        }
    }
}

/// How often task `i` was granted a permit along `es`.
pub open spec fn admissions_for(es: Seq<RunEvent>, i: int) -> nat {
    count_events(es, |e: RunEvent| e == RunEvent::Admitted(i))
}

/// How often task `i`'s capture was started along `es`.
pub open spec fn begins_for(es: Seq<RunEvent>, i: int) -> nat {
    count_events(es, |e: RunEvent| e matches RunEvent::Begin(j) && j == i)
}

/// How often task `i`'s capture returned along `es`.
pub open spec fn completes_for(es: Seq<RunEvent>, i: int) -> nat {
    count_events(es, |e: RunEvent| e matches RunEvent::Complete(j, _c) && j == i)
}

/// How often task `i` was refused by a closed pool along `es`.
pub open spec fn closed_admissions_for(es: Seq<RunEvent>, i: int) -> nat {
    count_events(es, |e: RunEvent| e == RunEvent::AdmitClosed(i))
}

/// Each stage of a task's lifecycle happens at most once, and in order:
/// permit acquisition precedes the capture, which precedes the completion.
/// A task still pending has seen no event; an admitted task has been
/// granted a permit exactly once; a running task has also begun its
/// capture exactly once; a completed task has either gone through all
/// three stages once each, or was refused exactly once by a closed pool
/// and saw nothing else.
pub proof fn theorem_lifecycle_exactly_once(n: nat, limit: int, es: Seq<RunEvent>, i: int)
    requires
        1 <= limit,
        valid_trace(init_model(n, limit), es),
        0 <= i < n,
    ensures
        run(init_model(n, limit), es).phases[i] is Pending ==> admissions_for(es, i) == 0
            && begins_for(es, i) == 0 && completes_for(es, i) == 0 && closed_admissions_for(es, i)
            == 0,
        run(init_model(n, limit), es).phases[i] is Admitted ==> admissions_for(es, i) == 1
            && begins_for(es, i) == 0 && completes_for(es, i) == 0 && closed_admissions_for(es, i)
            == 0,
        run(init_model(n, limit), es).phases[i] is Running ==> admissions_for(es, i) == 1
            && begins_for(es, i) == 1 && completes_for(es, i) == 0 && closed_admissions_for(es, i)
            == 0,
        run(init_model(n, limit), es).phases[i] is Completed ==> (admissions_for(es, i) == 1
            && begins_for(es, i) == 1 && completes_for(es, i) == 1 && closed_admissions_for(es, i)
            == 0) || (admissions_for(es, i) == 0 && begins_for(es, i) == 0 && completes_for(es, i)
            == 0 && closed_admissions_for(es, i) == 1),
    decreases es.len(),
{
    if es.len() > 0 {
        theorem_lifecycle_exactly_once(n, limit, es.drop_last(), i);
        lemma_run_shape(init_model(n, limit), es.drop_last());
    }
}

/// A capture return that produced an artifact.
pub open spec fn is_success_completion(e: RunEvent) -> bool {
    e matches RunEvent::Complete(_i, c) && c
}

/// A capture return that failed, or an admission refused by a closed pool.
pub open spec fn is_failure_completion(e: RunEvent) -> bool {
    (e matches RunEvent::Complete(_i, c) && !c) || e is AdmitClosed
}

/// How many events of `es` complete a task successfully.
pub open spec fn success_completions(es: Seq<RunEvent>) -> nat
    decreases es.len(),
{
    if es.len() == 0 {
        0
    } else {
        success_completions(es.drop_last()) + if is_success_completion(es.last()) {
            1nat
        } else {
            0nat
        }
    }
}

/// How many events of `es` complete a task as a failure.
pub open spec fn failure_completions(es: Seq<RunEvent>) -> nat
    decreases es.len(),
{
    if es.len() == 0 {
        0
    } else {
        failure_completions(es.drop_last()) + if is_failure_completion(es.last()) {
            1nat
        } else {
            0nat
        }
    }
}

/// The counters count outcomes and nothing else: along any valid trace,
/// the success counter grows by exactly the successful completions and the
/// failure counter by exactly the failed ones, whatever order they fire in.
pub proof fn theorem_summary_counts_outcomes(m: RunModel, es: Seq<RunEvent>)
    requires
        valid_trace(m, es),
    ensures
        run(m, es).success == m.success + success_completions(es),
        run(m, es).fail == m.fail + failure_completions(es),
    decreases es.len(),
{
    if es.len() > 0 {
        theorem_summary_counts_outcomes(m, es.drop_last());
    }
}

pub proof fn lemma_success_only_from_captures(m: RunModel, es: Seq<RunEvent>)
    requires
        valid_trace(m, es),
        forall|k: int| 0 <= k < es.len() ==> !is_success_completion(#[trigger] es[k]),
    ensures
        run(m, es).success == m.success,
    decreases es.len(),
{
    if es.len() > 0 {
        assert(es.last() == es[es.len() - 1]);
        lemma_success_only_from_captures(m, es.drop_last());
    }
}

pub proof fn lemma_failure_only_from_failures(m: RunModel, es: Seq<RunEvent>)
    requires
        valid_trace(m, es),
        forall|k: int| 0 <= k < es.len() ==> !is_failure_completion(#[trigger] es[k]),
    ensures
        run(m, es).fail == m.fail,
    decreases es.len(),
{
    if es.len() > 0 {
        assert(es.last() == es[es.len() - 1]);
        lemma_failure_only_from_failures(m, es.drop_last());
    }
}

/// With a collaborator that always fails, a completed run's summary is
/// `(0, N)`.
pub proof fn theorem_all_failures(n: nat, limit: int, es: Seq<RunEvent>)
    requires
        1 <= limit,
        valid_trace(init_model(n, limit), es),
        all_completed(run(init_model(n, limit), es)),
        forall|k: int| 0 <= k < es.len() ==> !is_success_completion(#[trigger] es[k]),
    ensures
        run(init_model(n, limit), es).success == 0,
        run(init_model(n, limit), es).fail == n,
{
    let m0 = init_model(n, limit);
    lemma_success_only_from_captures(m0, es);
    assert(es.take(es.len() as int) =~= es);
    theorem_counters_track_completion(n, limit, es, es.len() as int);
}

/// With a collaborator that always succeeds and an open pool, a completed
/// run's summary is `(N, 0)`.
pub proof fn theorem_all_successes(n: nat, limit: int, es: Seq<RunEvent>)
    requires
        1 <= limit,
        valid_trace(init_model(n, limit), es),
        all_completed(run(init_model(n, limit), es)),
        forall|k: int| 0 <= k < es.len() ==> !is_failure_completion(#[trigger] es[k]),
    ensures
        run(init_model(n, limit), es).fail == 0,
        run(init_model(n, limit), es).success == n,
{
    let m0 = init_model(n, limit);
    lemma_failure_only_from_failures(m0, es);
    assert(es.take(es.len() as int) =~= es);
    theorem_counters_track_completion(n, limit, es, es.len() as int);
}

/// Once every task has completed, no later event moves the run: phases and
/// counters stay exactly as they are, so a second read of the summary
/// returns the same values, and the callback never fires again.
pub proof fn theorem_summary_stable(m: RunModel, es: Seq<RunEvent>)
    requires
        all_completed(m),
        valid_trace(m, es),
    ensures
        run(m, es).phases == m.phases,
        run(m, es).success == m.success,
        run(m, es).fail == m.fail,
        all_completed(run(m, es)),
        callback_event_count(es) == 0,
    decreases es.len(),
{
    if es.len() > 0 {
        theorem_summary_stable(m, es.drop_last());
        let prev = run(m, es.drop_last());
        match es.last() {
            RunEvent::Admitted(i) => {
                assert(prev.phases[i] is Completed);
            },
            RunEvent::AdmitClosed(i) => {
                assert(prev.phases[i] is Completed);
            },
            RunEvent::Begin(i) => {
                assert(prev.phases[i] is Completed);
            },
            RunEvent::Complete(i, _c) => {
                assert(prev.phases[i] is Completed);
            },
            RunEvent::Close => {},
        }
    }
}

} // verus!
