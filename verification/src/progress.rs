//! The progress reporter: a pure observer fed one event per completed task.
//! It keeps its own counters and renders them; no control flow ever depends
//! on it.

use vstd::prelude::*;
use vstd::string::StrSliceExecFns;
use vstd::string::StringExecFns;

use crate::text::dec_spec;
use crate::text::decimal_string;

verus! {

/// Live completed/total and success accounting for one run.
pub struct ProgressReporter {
    total: usize,
    completed: usize,
    success_shown: usize,
}

impl ProgressReporter {
    /// The reporter's counters are consistent: it never shows more
    /// successes than completions, nor more completions than tasks.
    pub closed spec fn wf(&self) -> bool {
        self.success_shown <= self.completed <= self.total
    }

    /// How many tasks the run comprises.
    pub closed spec fn spec_total(&self) -> usize {
        self.total
    }

    /// How many completion events have been observed.
    pub closed spec fn spec_completed(&self) -> usize {
        self.completed
    }

    /// The success count carried by the latest completion event.
    pub closed spec fn spec_success_shown(&self) -> usize {
        self.success_shown
    }

    /// A reporter for a run of `total` tasks, before any completion.
    pub fn new(total: usize) -> (r: ProgressReporter)
        ensures
            r.wf(),
            r.spec_total() == total,
            r.spec_completed() == 0,
            r.spec_success_shown() == 0,
    {
        ProgressReporter { total, completed: 0, success_shown: 0 }
    }

    /// Observes one completed task, fed the success count as recorded by
    /// the aggregator after that task.
    pub fn on_task_completed(&mut self, current_success_count: usize)
        requires
            old(self).wf(),
            old(self).spec_completed() < old(self).spec_total(),
            current_success_count <= old(self).spec_completed() + 1,
        ensures
            final(self).wf(),
            final(self).spec_total() == old(self).spec_total(),
            final(self).spec_completed() == old(self).spec_completed() + 1,
            final(self).spec_success_shown() == current_success_count,
    {
        self.completed = self.completed + 1;
        self.success_shown = current_success_count;
    }

    /// The `completed/total` position, rendered in decimal.
    pub fn render_position(&self) -> (r: String)
        ensures
            r@ == dec_spec(self.spec_completed() as nat) + "/"@ + dec_spec(
                self.spec_total() as nat,
            ),
    {
        let mut out = decimal_string(self.completed as u64);
        out.append("/");
        let total = decimal_string(self.total as u64);
        out.append(total.as_str());
        out
    }

    /// The end-of-run summary line: final position, successes, and failures.
    pub fn final_render(&self) -> (r: String)
        requires
            self.wf(),
        ensures
            r@ == "完成! "@ + dec_spec(self.spec_completed() as nat) + "/"@ + dec_spec(
                self.spec_total() as nat,
            ) + " 成功: "@ + dec_spec(self.spec_success_shown() as nat) + " 失败: "@ + dec_spec(
                (self.spec_completed() - self.spec_success_shown()) as nat,
            ),
    {
        let mut out = String::from_str("完成! ");
        let position = self.render_position();
        out.append(position.as_str());
        out.append(" 成功: ");
        let success = decimal_string(self.success_shown as u64);
        out.append(success.as_str());
        out.append(" 失败: ");
        let fail = decimal_string((self.completed - self.success_shown) as u64);
        out.append(fail.as_str());
        out
    }
}

} // verus!
