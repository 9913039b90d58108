//! The executor: owns the permit pool, the aggregator and the progress
//! reporter for one run, and takes the run through the abstract machine's
//! steps. An unverified scheduler may interleave admissions, capture starts
//! and completions for distinct targets in any order; every method here is
//! one machine step, so the theorems in `crate::laws` apply to whatever
//! trace of steps such a scheduler produces.

use vstd::prelude::*;

use crate::machine::all_completed;
use crate::machine::completed_count;
use crate::machine::init_model;
use crate::machine::inv;
use crate::machine::lemma_count_absent;
use crate::machine::lemma_count_missing_one;
use crate::machine::lemma_count_update;
use crate::machine::lemma_inv_init;
use crate::machine::lemma_inv_step;
use crate::machine::step;
use crate::machine::RunEvent;
use crate::machine::RunModel;
use crate::machine::TaskPhase;
use crate::pool::AcquireOutcome;
use crate::pool::PermitPool;
use crate::progress::ProgressReporter;
use crate::runner::pool_closed_error;
use crate::runner::run_task;
use crate::runner::CaptureOutcome;
use crate::stats::ExecutionStats;
use crate::target::ScreenshotResult;
use crate::target::Target;
use crate::text::dec_spec;

verus! {

/// What an admission attempt for one task came back with.
pub enum AdmitResult {
    /// The task holds a permit and may start its capture.
    Admitted,
    /// The pool is full; the task stays pending and must be retried.
    MustWait,
    /// The pool is closed; the task was completed on the spot as a failure,
    /// and this is the result to hand to the caller's callback.
    PoolClosed(ScreenshotResult),
}

/// One run's state: the submitted targets, each task's phase, the permit
/// pool, the aggregated counters and the progress reporter.
pub struct Executor {
    targets: Vec<Target>,
    phases: Vec<TaskPhase>,
    pool: PermitPool,
    stats: ExecutionStats,
    progress: ProgressReporter,
}

impl Executor {
    /// This run's state, abstracted to the machine the laws speak of.
    pub closed spec fn model(&self) -> RunModel {
        RunModel {
            phases: self.phases@,
            success: self.stats.spec_success() as int,
            fail: self.stats.spec_fail() as int,
            held: self.pool.spec_held() as int,
            limit: self.pool.spec_limit() as int,
            closed: self.pool.spec_closed(),
        }
    }

    /// The submitted targets, in submission order.
    pub closed spec fn spec_targets(&self) -> Seq<Target> {
        self.targets@
    }

    /// The executor's internal invariant: the machine invariant holds of
    /// its model, and the progress reporter tracks the counters.
    pub closed spec fn wf(&self) -> bool {
        &&& inv(self.model())
        &&& self.pool.wf()
        &&& self.progress.wf()
        &&& self.phases@.len() == self.targets@.len()
        &&& self.progress.spec_total() == self.targets@.len()
        &&& self.progress.spec_completed() == completed_count(self.phases@)
        &&& self.progress.spec_success_shown() == self.stats.spec_success()
    }

    /// A new run over `targets` with concurrency limit `limit`: every task
    /// pending, both counters zero, no permit outstanding.
    pub fn new(targets: Vec<Target>, limit: usize) -> (r: Executor)
        requires
            1 <= limit,
        ensures
            r.wf(),
            r.spec_targets() == targets@,
            r.model() == init_model(targets@.len() as nat, limit as int),
    {
        let n = targets.len();
        let mut phases: Vec<TaskPhase> = Vec::new();
        let mut i: usize = 0;
        while i < n
            invariant
                0 <= i <= n,
                phases@.len() == i,
                forall|k: int| 0 <= k < i ==> phases@[k] == TaskPhase::Pending,
            decreases n - i,
        {
            phases.push(TaskPhase::Pending);
            i = i + 1;
        }
        let r = Executor {
            targets,
            phases,
            pool: PermitPool::new(limit),
            stats: ExecutionStats::new(),
            progress: ProgressReporter::new(n),
        };
        proof {
            assert(r.phases@ =~= init_model(n as nat, limit as int).phases);
            assert(r.model() =~= init_model(n as nat, limit as int));
            lemma_inv_init(n as nat, limit as int);
            lemma_count_absent(r.phases@, TaskPhase::Completed);
        }
        r
    }

    /// How many targets were submitted.
    pub fn num_targets(&self) -> (r: usize)
        ensures
            r == self.spec_targets().len(),
    {
        self.targets.len()
    }

    /// The target at position `i`.
    pub fn target(&self, i: usize) -> (r: &Target)
        requires
            i < self.spec_targets().len(),
        ensures
            *r == self.spec_targets()[i as int],
    {
        &self.targets[i]
    }

    /// The lifecycle phase task `i` is in.
    pub fn phase(&self, i: usize) -> (p: TaskPhase)
        requires
            i < self.model().phases.len(),
        ensures
            p == self.model().phases[i as int],
    {
        self.phases[i]
    }

    /// Attempts to admit pending task `i`. With an open, non-full pool the
    /// task takes a permit; with a full pool nothing changes; with a closed
    /// pool the task is completed on the spot as a failure and its result —
    /// the pool-closed error for its target — is handed back for the
    /// caller's callback.
    pub fn request_admission(&mut self, i: usize) -> (r: AdmitResult)
        requires
            old(self).wf(),
            i < old(self).spec_targets().len(),
            old(self).model().phases[i as int] is Pending,
        ensures
            final(self).wf(),
            final(self).spec_targets() == old(self).spec_targets(),
            !old(self).model().closed && old(self).model().held < old(self).model().limit ==> (r
                is Admitted && final(self).model() == step(
                old(self).model(),
                RunEvent::Admitted(i as int),
            )),
            !old(self).model().closed && old(self).model().held == old(self).model().limit ==> (r
                is MustWait && final(self).model() == old(self).model()),
            old(self).model().closed ==> ({
                &&& r matches AdmitResult::PoolClosed(res)
                &&& final(self).model() == step(old(self).model(), RunEvent::AdmitClosed(i as int))
                &&& res.target == old(self).spec_targets()[i as int]
                &&& !res.success
                &&& res.file_path is None
                &&& res.error_message matches Some(e)
                &&& e@ == "获取并发许可失败"@
            }),
    {
        match self.pool.try_acquire() {
            AcquireOutcome::Granted => {
                proof {
                    lemma_inv_step(old(self).model(), RunEvent::Admitted(i as int));
                    lemma_count_update(
                        self.phases@,
                        i as int,
                        TaskPhase::Admitted,
                        TaskPhase::Completed,
                    );
                }
                self.phases.set(i, TaskPhase::Admitted);
                proof {
                    assert(self.model() =~= step(
                        old(self).model(),
                        RunEvent::Admitted(i as int),
                    ));
                }
                AdmitResult::Admitted
            },
            AcquireOutcome::Busy => {
                proof {
                    assert(self.model() =~= old(self).model());
                }
                AdmitResult::MustWait
            },
            AcquireOutcome::Closed => {
                proof {
                    lemma_inv_step(old(self).model(), RunEvent::AdmitClosed(i as int));
                    lemma_count_missing_one(self.phases@, TaskPhase::Completed, i as int);
                    lemma_count_update(
                        self.phases@,
                        i as int,
                        TaskPhase::Completed,
                        TaskPhase::Completed,
                    );
                }
                let message = pool_closed_error();
                let res = ScreenshotResult::failure(self.targets[i].clone(), message);
                self.stats.record(false);
                self.phases.set(i, TaskPhase::Completed);
                let (current_success, _current_fail) = self.stats.snapshot();
                self.progress.on_task_completed(current_success);
                proof {
                    assert(self.model() =~= step(
                        old(self).model(),
                        RunEvent::AdmitClosed(i as int),
                    ));
                }
                AdmitResult::PoolClosed(res)
            },
        }
    }

    /// Starts admitted task `i`'s capture: its permit-holding wait ends and
    /// its capture is now in flight.
    pub fn begin_capture(&mut self, i: usize)
        requires
            old(self).wf(),
            i < old(self).spec_targets().len(),
            old(self).model().phases[i as int] is Admitted,
        ensures
            final(self).wf(),
            final(self).spec_targets() == old(self).spec_targets(),
            final(self).model() == step(old(self).model(), RunEvent::Begin(i as int)),
    {
        proof {
            lemma_inv_step(self.model(), RunEvent::Begin(i as int));
            lemma_count_update(self.phases@, i as int, TaskPhase::Running, TaskPhase::Completed);
        }
        self.phases.set(i, TaskPhase::Running);
        proof {
            assert(self.model() =~= step(old(self).model(), RunEvent::Begin(i as int)));
        }
    }

    /// Completes running task `i` with what its capture came back with:
    /// gives the permit back, records the outcome, feeds the progress
    /// reporter, and returns the task's result for the caller's callback.
    pub fn complete(&mut self, i: usize, outcome: CaptureOutcome) -> (res: ScreenshotResult)
        requires
            old(self).wf(),
            i < old(self).spec_targets().len(),
            old(self).model().phases[i as int] is Running,
        ensures
            final(self).wf(),
            final(self).spec_targets() == old(self).spec_targets(),
            final(self).model() == step(
                old(self).model(),
                RunEvent::Complete(i as int, outcome is Captured),
            ),
            res.target == old(self).spec_targets()[i as int],
            res.success == (outcome is Captured),
            outcome matches CaptureOutcome::Captured { artifact_path } ==> res.file_path == Some(
                artifact_path,
            ) && res.error_message is None,
            outcome matches CaptureOutcome::Failed { error } ==> res.error_message == Some(error)
                && res.file_path is None,
    {
        let captured = match &outcome {
            CaptureOutcome::Captured { .. } => true,
            CaptureOutcome::Failed { .. } => false,
        };
        proof {
            lemma_inv_step(self.model(), RunEvent::Complete(i as int, captured));
            lemma_count_missing_one(self.phases@, TaskPhase::Completed, i as int);
            lemma_count_update(self.phases@, i as int, TaskPhase::Completed, TaskPhase::Completed);
        }
        let res = run_task(&self.targets[i], outcome);
        self.pool.release();
        self.stats.record(captured);
        self.phases.set(i, TaskPhase::Completed);
        let (current_success, _current_fail) = self.stats.snapshot();
        self.progress.on_task_completed(current_success);
        proof {
            assert(self.model() =~= step(
                old(self).model(),
                RunEvent::Complete(i as int, captured),
            ));
        }
        res
    }

    /// Shuts the permit pool down: every later admission completes its task
    /// as a failure.
    pub fn close_pool(&mut self)
        requires
            old(self).wf(),
        ensures
            final(self).wf(),
            final(self).spec_targets() == old(self).spec_targets(),
            final(self).model() == step(old(self).model(), RunEvent::Close),
    {
        self.pool.close();
        proof {
            assert(self.model() =~= step(old(self).model(), RunEvent::Close));
        }
    }

    /// Whether every submitted task has produced its result.
    pub fn is_done(&self) -> (r: bool)
        ensures
            r == all_completed(self.model()),
    {
        let n = self.phases.len();
        let mut j: usize = 0;
        while j < n
            invariant
                0 <= j <= n,
                n == self.phases@.len(),
                forall|k: int| 0 <= k < j ==> self.phases@[k] is Completed,
            decreases n - j,
        {
            let done = match self.phases[j] {
                TaskPhase::Completed => true,
                _ => false,
            };
            if !done {
                assert(!all_completed(self.model()));
                return false;
            }
            j = j + 1;
        }
        true
    }

    /// A point-in-time read of the run summary `(successes, failures)`.
    /// Reading changes nothing: a second read of the same state returns
    /// the same pair.
    pub fn summary(&self) -> (r: (usize, usize))
        ensures
            r.0 == self.model().success,
            r.1 == self.model().fail,
    {
        self.stats.snapshot()
    }

    /// The progress reporter's end-of-run line for this run's counters.
    pub fn final_render(&self) -> (r: String)
        requires
            self.wf(),
        ensures
            r@ == "完成! "@ + dec_spec(completed_count(self.model().phases)) + "/"@ + dec_spec(
                self.spec_targets().len(),
            ) + " 成功: "@ + dec_spec(self.model().success as nat) + " 失败: "@ + dec_spec(
                (completed_count(self.model().phases) - self.model().success) as nat,
            ),
    {
        self.progress.final_render()
    }
}

/// How many of the outcomes are captures.
pub open spec fn captured_count(os: Seq<CaptureOutcome>) -> nat
    decreases os.len(),
{
    if os.len() == 0 {
        0
    } else {
        captured_count(os.drop_last()) + if os.last() is Captured {
            1nat
        } else {
            0nat
        }
    }
}

pub proof fn lemma_captured_count_le_len(os: Seq<CaptureOutcome>)
    ensures
        captured_count(os) <= os.len(),
    decreases os.len(),
{
    if os.len() > 0 {
        lemma_captured_count_le_len(os.drop_last());
    }
}

/// Takes a whole batch to completion, one target at a time, pairing target
/// `i` with outcome `i`. The returned summary counts exactly the captures
/// among the outcomes; the returned results carry each target's outcome
/// over, in submission order.
pub fn execute_batch(targets: Vec<Target>, limit: usize, outcomes: &Vec<CaptureOutcome>) -> (r: (
    Vec<ScreenshotResult>,
    (usize, usize),
))
    requires
        1 <= limit,
        outcomes@.len() == targets@.len(),
    ensures
        r.0@.len() == targets@.len(),
        r.1.0 == captured_count(outcomes@),
        r.1.1 == targets@.len() - captured_count(outcomes@),
        forall|i: int|
            0 <= i < targets@.len() ==> {
                &&& (#[trigger] r.0@[i]).target == targets@[i]
                &&& r.0@[i].success == (outcomes@[i] is Captured)
                &&& (outcomes@[i] matches CaptureOutcome::Captured { artifact_path }
                    ==> r.0@[i].file_path == Some(artifact_path) && r.0@[i].error_message is None)
                &&& (outcomes@[i] matches CaptureOutcome::Failed { error } ==> r.0@[i].error_message
                    == Some(error) && r.0@[i].file_path is None)
            },
{
    let ghost tgt = targets@;
    let n = targets.len();
    let mut ex = Executor::new(targets, limit);
    let mut results: Vec<ScreenshotResult> = Vec::new();
    let mut i: usize = 0;
    proof {
        assert(outcomes@.take(0) =~= Seq::<CaptureOutcome>::empty());
    }
    while i < n
        invariant
            0 <= i <= n,
            n == tgt.len(),
            outcomes@.len() == n,
            ex.wf(),
            ex.spec_targets() == tgt,
            ex.model().phases.len() == n,
            !ex.model().closed,
            ex.model().held == 0,
            ex.model().limit == limit,
            1 <= limit,
            results@.len() == i,
            forall|k: int| 0 <= k < i ==> ex.model().phases[k] is Completed,
            forall|k: int| i <= k < n ==> ex.model().phases[k] is Pending,
            ex.model().success == captured_count(outcomes@.take(i as int)),
            ex.model().fail == i - captured_count(outcomes@.take(i as int)),
            forall|k: int|
                0 <= k < i ==> {
                    &&& (#[trigger] results@[k]).target == tgt[k]
                    &&& results@[k].success == (outcomes@[k] is Captured)
                    &&& (outcomes@[k] matches CaptureOutcome::Captured { artifact_path }
                        ==> results@[k].file_path == Some(artifact_path)
                        && results@[k].error_message is None)
                    &&& (outcomes@[k] matches CaptureOutcome::Failed { error }
                        ==> results@[k].error_message == Some(error)
                        && results@[k].file_path is None)
                },
        decreases n - i,
    {
        let outcome = outcomes[i].clone();
        match ex.request_admission(i) {
            AdmitResult::Admitted => {
                ex.begin_capture(i);
                let res = ex.complete(i, outcome);
                results.push(res);
            },
            AdmitResult::MustWait => {
                proof {
                    assert(false);
                }
            },
            AdmitResult::PoolClosed(res) => {
                proof {
                    assert(false);
                }
                results.push(res);
            },
        }
        proof {
            assert(outcomes@.take(i + 1).drop_last() =~= outcomes@.take(i as int));
            assert(outcomes@.take(i + 1).last() == outcomes@[i as int]);
        }
        i = i + 1;
    }
    proof {
        assert(outcomes@.take(n as int) =~= outcomes@);
        lemma_captured_count_le_len(outcomes@);
    }
    let summary = ex.summary();
    (results, summary)
}

} // verus!
