//! The task runner: pairs one target with the outcome its capture attempt
//! came back with and produces the normalized task result. It never raises
//! an error to its caller; every outcome, expected or not, becomes a
//! `ScreenshotResult`.

use vstd::prelude::*;
use vstd::string::StringExecFns;

use crate::target::ScreenshotResult;
use crate::target::Target;

verus! {

/// What one capture attempt came back with, as the capture collaborator
/// reported it: an artifact's storage location, or a failure description.
#[derive(Debug)]
pub enum CaptureOutcome {
    /// The capture produced an artifact stored at this path.
    Captured { artifact_path: String },
    /// The capture failed for this reason.
    Failed { error: String },
}

impl Clone for CaptureOutcome {
    /// An exact copy: the carried text is kept as it is.
    fn clone(&self) -> (r: CaptureOutcome)
        ensures
            r == *self,
    {
        match self {
            CaptureOutcome::Captured { artifact_path } => CaptureOutcome::Captured {
                artifact_path: artifact_path.clone(),
            },
            CaptureOutcome::Failed { error } => CaptureOutcome::Failed { error: error.clone() },
        }
    }
}

/// Maps one capture outcome for `target` to its task result: a capture
/// carries its artifact path over, a failure carries its reason over.
pub fn run_task(target: &Target, outcome: CaptureOutcome) -> (r: ScreenshotResult)
    ensures
        r.target == *target,
        r.success == (outcome is Captured),
        outcome matches CaptureOutcome::Captured { artifact_path } ==> r.file_path == Some(
            artifact_path,
        ) && r.error_message is None,
        outcome matches CaptureOutcome::Failed { error } ==> r.error_message == Some(error)
            && r.file_path is None,
{
    match outcome {
        CaptureOutcome::Captured { artifact_path } => ScreenshotResult::success(
            target.clone(),
            artifact_path,
        ),
        CaptureOutcome::Failed { error } => ScreenshotResult::failure(target.clone(), error),
    }
}

/// The failure text recorded for a target whose admission found the permit
/// pool closed.
pub fn pool_closed_error() -> (r: String)
    ensures
        r@ == "获取并发许可失败"@,
{
    String::from_str("获取并发许可失败")
}

} // verus!
