use picmyweb::executor::execute_batch;
use picmyweb::executor::AdmitResult;
use picmyweb::executor::Executor;
use picmyweb::pool::AcquireOutcome;
use picmyweb::pool::PermitPool;
use picmyweb::progress::ProgressReporter;
use picmyweb::runner::run_task;
use picmyweb::runner::CaptureOutcome;
use picmyweb::stats::ExecutionStats;
use picmyweb::target::Target;

fn targets(names: &[&str]) -> Vec<Target> {
    names
        .iter()
        .map(|n| Target::new(n.to_string()).unwrap())
        .collect()
}

#[test]
fn pool_grants_up_to_limit_then_reports_busy() {
    let mut pool = PermitPool::new(2);
    assert!(matches!(pool.try_acquire(), AcquireOutcome::Granted));
    assert!(matches!(pool.try_acquire(), AcquireOutcome::Granted));
    assert!(matches!(pool.try_acquire(), AcquireOutcome::Busy));
    pool.release();
    assert!(matches!(pool.try_acquire(), AcquireOutcome::Granted));
}

#[test]
fn pool_reports_closed_after_close() {
    let mut pool = PermitPool::new(1);
    pool.close();
    assert!(matches!(pool.try_acquire(), AcquireOutcome::Closed));
}

#[test]
fn stats_count_each_outcome_once() {
    let mut stats = ExecutionStats::new();
    stats.record(true);
    stats.record(false);
    stats.record(true);
    assert_eq!(stats.snapshot(), (2, 1));
}

#[test]
fn progress_renders_position() {
    let mut progress = ProgressReporter::new(3);
    assert_eq!(progress.render_position(), "0/3");
    progress.on_task_completed(1);
    assert_eq!(progress.render_position(), "1/3");
}

#[test]
fn run_task_maps_both_outcomes() {
    let t = Target::new("example.com".to_string()).unwrap();
    let ok = run_task(
        &t,
        CaptureOutcome::Captured {
            artifact_path: "shots\\a.png".to_string(),
        },
    );
    assert!(ok.success);
    assert_eq!(ok.file_path.as_deref(), Some("shots\\a.png"));
    let bad = run_task(
        &t,
        CaptureOutcome::Failed {
            error: "no response".to_string(),
        },
    );
    assert!(!bad.success);
    assert_eq!(bad.error_message.as_deref(), Some("no response"));
}

#[test]
fn five_targets_limit_two_mixed_outcomes() {
    // Five targets at concurrency two; captures succeed for the first,
    // third and fifth target and fail for the second and fourth.
    let ts = targets(&["a.com", "b.com", "c.com", "d.com", "e.com"]);
    let outcomes = vec![
        CaptureOutcome::Captured {
            artifact_path: "shots\\a.png".to_string(),
        },
        CaptureOutcome::Failed {
            error: "timeout".to_string(),
        },
        CaptureOutcome::Captured {
            artifact_path: "shots\\c.png".to_string(),
        },
        CaptureOutcome::Failed {
            error: "refused".to_string(),
        },
        CaptureOutcome::Captured {
            artifact_path: "shots\\e.png".to_string(),
        },
    ];
    let (results, summary) = execute_batch(ts, 2, &outcomes);
    assert_eq!(summary, (3, 2));
    assert_eq!(results.len(), 5);
    assert!(results[0].success);
    assert!(!results[1].success);
    assert!(results[2].success);
    assert!(!results[3].success);
    assert!(results[4].success);
    assert_eq!(results[1].error_message.as_deref(), Some("timeout"));
    assert_eq!(results[4].file_path.as_deref(), Some("shots\\e.png"));
}

#[test]
fn limit_two_never_admits_a_third() {
    let ts = targets(&["a.com", "b.com", "c.com", "d.com", "e.com"]);
    let mut ex = Executor::new(ts, 2);
    assert!(matches!(ex.request_admission(0), AdmitResult::Admitted));
    assert!(matches!(ex.request_admission(1), AdmitResult::Admitted));
    // Both permits are taken: the third target must wait.
    assert!(matches!(ex.request_admission(2), AdmitResult::MustWait));
    ex.begin_capture(0);
    ex.begin_capture(1);
    assert!(matches!(ex.request_admission(2), AdmitResult::MustWait));
    // A completion frees one slot; completion order differs from
    // submission order here.
    let r1 = ex.complete(
        1,
        CaptureOutcome::Failed {
            error: "timeout".to_string(),
        },
    );
    assert!(!r1.success);
    assert!(matches!(ex.request_admission(2), AdmitResult::Admitted));
    ex.begin_capture(2);
    let r0 = ex.complete(
        0,
        CaptureOutcome::Captured {
            artifact_path: "shots\\a.png".to_string(),
        },
    );
    assert!(r0.success);
    assert!(matches!(ex.request_admission(3), AdmitResult::Admitted));
    ex.begin_capture(3);
    assert!(matches!(ex.request_admission(4), AdmitResult::MustWait));
    ex.complete(
        2,
        CaptureOutcome::Captured {
            artifact_path: "shots\\c.png".to_string(),
        },
    );
    assert!(matches!(ex.request_admission(4), AdmitResult::Admitted));
    ex.begin_capture(4);
    ex.complete(
        3,
        CaptureOutcome::Failed {
            error: "refused".to_string(),
        },
    );
    ex.complete(
        4,
        CaptureOutcome::Captured {
            artifact_path: "shots\\e.png".to_string(),
        },
    );
    assert!(ex.is_done());
    assert_eq!(ex.summary(), (3, 2));
}

#[test]
fn empty_batch_summary_and_render() {
    let (results, summary) = execute_batch(Vec::new(), 1, &Vec::new());
    assert!(results.is_empty());
    assert_eq!(summary, (0, 0));
    let ex = Executor::new(Vec::new(), 1);
    assert!(ex.is_done());
    assert_eq!(ex.summary(), (0, 0));
    assert_eq!(ex.final_render(), "完成! 0/0 成功: 0 失败: 0");
}

#[test]
fn all_failures_summary() {
    let ts = targets(&["a.com", "b.com", "c.com"]);
    let outcomes = vec![
        CaptureOutcome::Failed {
            error: "x".to_string(),
        },
        CaptureOutcome::Failed {
            error: "y".to_string(),
        },
        CaptureOutcome::Failed {
            error: "z".to_string(),
        },
    ];
    let (results, summary) = execute_batch(ts, 1, &outcomes);
    assert_eq!(summary, (0, 3));
    assert!(results.iter().all(|r| !r.success));
}

#[test]
fn all_successes_summary() {
    let ts = targets(&["a.com", "b.com", "c.com"]);
    let outcomes = vec![
        CaptureOutcome::Captured {
            artifact_path: "shots\\a.png".to_string(),
        },
        CaptureOutcome::Captured {
            artifact_path: "shots\\b.png".to_string(),
        },
        CaptureOutcome::Captured {
            artifact_path: "shots\\c.png".to_string(),
        },
    ];
    let (results, summary) = execute_batch(ts, 1, &outcomes);
    assert_eq!(summary, (3, 0));
    assert!(results.iter().all(|r| r.success));
}

#[test]
fn summary_is_stable_after_completion() {
    let ts = targets(&["a.com", "b.com"]);
    let outcomes = vec![
        CaptureOutcome::Captured {
            artifact_path: "shots\\a.png".to_string(),
        },
        CaptureOutcome::Failed {
            error: "x".to_string(),
        },
    ];
    let mut ex = Executor::new(ts, 1);
    for i in 0..2usize {
        assert!(matches!(ex.request_admission(i), AdmitResult::Admitted));
        ex.begin_capture(i);
        ex.complete(i, outcomes[i].clone());
    }
    assert!(ex.is_done());
    let first = ex.summary();
    let second = ex.summary();
    assert_eq!(first, (1, 1));
    assert_eq!(first, second);
    // Closing the pool after completion moves nothing either.
    ex.close_pool();
    assert_eq!(ex.summary(), first);
    assert_eq!(ex.final_render(), "完成! 2/2 成功: 1 失败: 1");
}

#[test]
fn closed_pool_fails_each_admission() {
    let ts = targets(&["a.com", "b.com"]);
    let mut ex = Executor::new(ts, 2);
    ex.close_pool();
    match ex.request_admission(0) {
        AdmitResult::PoolClosed(res) => {
            assert!(!res.success);
            assert_eq!(res.error_message.as_deref(), Some("获取并发许可失败"));
            assert_eq!(res.target.original_text, "a.com");
        }
        _ => panic!("a closed pool must fail the admission"),
    }
    match ex.request_admission(1) {
        AdmitResult::PoolClosed(_) => {}
        _ => panic!("a closed pool must fail the admission"),
    }
    assert!(ex.is_done());
    assert_eq!(ex.summary(), (0, 2));
}

#[test]
fn callback_results_come_once_per_target() {
    let ts = targets(&["a.com", "b.com", "c.com", "d.com"]);
    let outcomes = vec![
        CaptureOutcome::Captured {
            artifact_path: "shots\\a.png".to_string(),
        },
        CaptureOutcome::Captured {
            artifact_path: "shots\\b.png".to_string(),
        },
        CaptureOutcome::Failed {
            error: "x".to_string(),
        },
        CaptureOutcome::Captured {
            artifact_path: "shots\\d.png".to_string(),
        },
    ];
    let (results, summary) = execute_batch(ts, 3, &outcomes);
    assert_eq!(results.len(), 4);
    for (i, name) in ["a.com", "b.com", "c.com", "d.com"].iter().enumerate() {
        assert_eq!(&results[i].target.original_text, name);
    }
    assert_eq!(summary, (3, 1));
}
