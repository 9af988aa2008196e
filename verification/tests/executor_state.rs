use megamaid::executor::{
    ExecutionConfig, ExecutionEngine, ExecutionError, ExecutionMode, OperationAction,
    OperationStatus,
};
use megamaid::models::{CleanupAction, CleanupEntry, CleanupPlan};

fn create_test_plan(base_path: &str, entries: Vec<CleanupEntry>) -> CleanupPlan {
    CleanupPlan {
        version: "0.1.0".to_string(),
        created_at: "2025-11-19T12:00:00+00:00".to_string(),
        base_path: base_path.to_string(),
        entries,
    }
}

fn create_cleanup_entry(path: &str, size: u64, action: CleanupAction) -> CleanupEntry {
    CleanupEntry {
        path: path.to_string(),
        size,
        modified: "2025-11-19T12:00:00+00:00".to_string(),
        action,
        rule_name: "test".to_string(),
        reason: "test reason".to_string(),
    }
}

#[test]
fn test_parallel_with_interactive_mode_rejected() {
    // Requesting parallel together with Interactive mode is rejected
    // before any operation, with a configuration error.
    let entry = create_cleanup_entry("test.txt", 7, CleanupAction::Delete);
    let plan = create_test_plan("/tmp/area", vec![entry]);

    let config = ExecutionConfig {
        mode: ExecutionMode::Interactive,
        parallel: true,
        ..Default::default()
    };

    let executor = ExecutionEngine::new(config);
    let result = executor.begin(&plan);

    assert!(result.is_err());
    match result {
        Err(ExecutionError::InvalidConfiguration(_)) => {
            // Expected
        },
        _ => panic!("Expected InvalidConfiguration error"),
    }
}

#[test]
fn dry_run_reports_success_without_touching_anything() {
    let entries = vec![
        create_cleanup_entry("a.txt", 7, CleanupAction::Delete),
        create_cleanup_entry("b.txt", 9, CleanupAction::Delete),
        create_cleanup_entry("keep.txt", 1, CleanupAction::Keep),
    ];
    let plan = create_test_plan("/tmp/area", entries);

    let config = ExecutionConfig { mode: ExecutionMode::DryRun, ..Default::default() };
    let executor = ExecutionEngine::new(config);
    let result = executor.simulate(&plan, 1763553600, 5).unwrap();

    assert_eq!(result.operations.len(), 2);
    assert!(result.operations.iter().all(|o| o.status == OperationStatus::DryRun));
    assert_eq!(result.summary.successful, 2);
    assert_eq!(result.summary.failed, 0);
    assert_eq!(result.summary.space_freed, 16);
}

#[test]
fn keep_and_review_entries_are_never_acted_on() {
    let entries = vec![
        create_cleanup_entry("keep.txt", 7, CleanupAction::Keep),
        create_cleanup_entry("review.txt", 7, CleanupAction::Review),
    ];
    let plan = create_test_plan("/tmp/area", entries);

    let executor = ExecutionEngine::new(ExecutionConfig::default());
    let mut st = executor.begin(&plan).unwrap();

    assert!(st.next_entry().is_none());
    let result = st.finish(1);
    assert_eq!(result.summary.total_operations, 0);
}

#[test]
fn sequential_execution_records_outcomes_in_order() {
    let entries = vec![
        create_cleanup_entry("a.txt", 10, CleanupAction::Delete),
        create_cleanup_entry("b.txt", 20, CleanupAction::Delete),
    ];
    let plan = create_test_plan("/tmp/area", entries);

    let executor = ExecutionEngine::new(ExecutionConfig::default());
    let mut st = executor.begin(&plan).unwrap();

    assert_eq!(st.next_full_path().as_deref(), Some("/tmp/area/a.txt"));
    assert_eq!(st.planned_action(), OperationAction::Delete);
    st.record_outcome(true, None, 100);
    assert_eq!(st.next_full_path().as_deref(), Some("/tmp/area/b.txt"));
    st.record_outcome(true, None, 101);
    assert!(st.next_entry().is_none());

    let result = st.finish(3);
    assert_eq!(result.summary.successful, 2);
    assert_eq!(result.summary.failed, 0);
    assert_eq!(result.summary.space_freed, 30);
    assert_eq!(result.operations[0].path, "/tmp/area/a.txt");
    assert_eq!(result.operations[1].path, "/tmp/area/b.txt");
}

#[test]
fn sequential_fail_fast_stops_after_first_failure() {
    let entries = vec![
        create_cleanup_entry("gone.txt", 10, CleanupAction::Delete),
        create_cleanup_entry("never.txt", 20, CleanupAction::Delete),
    ];
    let plan = create_test_plan("/tmp/area", entries);

    let config = ExecutionConfig { fail_fast: true, ..Default::default() };
    let executor = ExecutionEngine::new(config);
    let mut st = executor.begin(&plan).unwrap();

    st.record_outcome(false, Some("No such file".to_string()), 100);
    assert!(st.next_entry().is_none(), "fail-fast must stop the run");

    let result = st.finish(1);
    assert_eq!(result.summary.failed, 1);
    assert_eq!(result.operations.len(), 1);
}

#[test]
fn continue_on_error_without_fail_fast() {
    let entries = vec![
        create_cleanup_entry("gone.txt", 10, CleanupAction::Delete),
        create_cleanup_entry("ok.txt", 20, CleanupAction::Delete),
    ];
    let plan = create_test_plan("/tmp/area", entries);

    let executor = ExecutionEngine::new(ExecutionConfig::default());
    let mut st = executor.begin(&plan).unwrap();

    st.record_outcome(false, Some("No such file".to_string()), 100);
    assert!(st.next_entry().is_some(), "without fail-fast the run continues");
    st.record_outcome(true, None, 101);

    let result = st.finish(1);
    assert_eq!(result.summary.failed, 1);
    assert_eq!(result.summary.successful, 1);
    assert_eq!(result.operations.len(), 2);
}

#[test]
fn interactive_skip_records_skipped_without_side_effects() {
    let entries = vec![create_cleanup_entry("a.txt", 10, CleanupAction::Delete)];
    let plan = create_test_plan("/tmp/area", entries);

    let config = ExecutionConfig { mode: ExecutionMode::Interactive, ..Default::default() };
    let executor = ExecutionEngine::new(config);
    let mut st = executor.begin(&plan).unwrap();

    st.record_skip(100);
    let result = st.finish(1);
    assert_eq!(result.summary.skipped, 1);
    assert_eq!(result.operations[0].action, OperationAction::Skip);
    assert_eq!(result.operations[0].status, OperationStatus::Skipped);
}

#[test]
fn hundred_entries_in_parallel_batches_of_25_all_succeed() {
    // 100 Delete entries executed in parallel with batch size 25 and
    // Batch mode: the summary reports 100 successful and 0 failed.
    let mut entries = Vec::new();
    for i in 0..100 {
        entries.push(create_cleanup_entry(&format!("file{}.txt", i), 7, CleanupAction::Delete));
    }
    let plan = create_test_plan("/tmp/area", entries);

    let config = ExecutionConfig { parallel: true, batch_size: 25, ..Default::default() };
    let executor = ExecutionEngine::new(config);
    let mut st = executor.begin(&plan).unwrap();

    let mut batches = 0;
    loop {
        let paths = st.batch_paths();
        if paths.is_empty() {
            break;
        }
        assert_eq!(paths.len(), 25);
        let outcomes: Vec<(bool, Option<String>)> =
            paths.iter().map(|_| (true, None)).collect();
        st.record_batch(&outcomes, 100);
        batches += 1;
    }
    assert_eq!(batches, 4);

    let result = st.finish(9);
    assert_eq!(result.summary.total_operations, 100);
    assert_eq!(result.summary.successful, 100);
    assert_eq!(result.summary.failed, 0);
    assert_eq!(result.summary.space_freed, 700);
}

#[test]
fn parallel_fail_fast_stops_at_the_batch_boundary() {
    let mut entries = Vec::new();
    for i in 0..10 {
        entries.push(create_cleanup_entry(&format!("file{}.txt", i), 7, CleanupAction::Delete));
    }
    let plan = create_test_plan("/tmp/area", entries);

    let config = ExecutionConfig {
        parallel: true,
        batch_size: 3,
        fail_fast: true,
        ..Default::default()
    };
    let executor = ExecutionEngine::new(config);
    let mut st = executor.begin(&plan).unwrap();

    let first = st.batch_paths();
    assert_eq!(first.len(), 3);
    let outcomes: Vec<(bool, Option<String>)> = vec![
        (true, None),
        (false, Some("denied".to_string())),
        (true, None),
    ];
    st.record_batch(&outcomes, 100);

    // A failure in the earlier batch stops the run before the next batch.
    assert!(st.batch_paths().is_empty());

    let result = st.finish(1);
    assert_eq!(result.summary.failed, 1);
    assert!(result.operations.len() < 10);
}

#[test]
fn summary_is_recomputable_from_the_operation_list() {
    let entries = vec![
        create_cleanup_entry("a.txt", 10, CleanupAction::Delete),
        create_cleanup_entry("b.txt", 20, CleanupAction::Delete),
        create_cleanup_entry("c.txt", 30, CleanupAction::Delete),
    ];
    let plan = create_test_plan("/tmp/area", entries);

    let executor = ExecutionEngine::new(ExecutionConfig::default());
    let mut st = executor.begin(&plan).unwrap();
    st.record_outcome(true, None, 1);
    st.record_outcome(false, Some("denied".to_string()), 2);
    st.record_outcome(true, None, 3);
    let result = st.finish(4);

    let recomputed = megamaid::executor::compute_summary(&result.operations, 4);
    assert_eq!(recomputed, result.summary);
    assert_eq!(recomputed.successful, 2);
    assert_eq!(recomputed.failed, 1);
    assert_eq!(recomputed.space_freed, 40);
}

#[test]
fn backup_destination_recreates_relative_structure() {
    let entries = vec![create_cleanup_entry("a/b/file.txt", 7, CleanupAction::Delete)];
    let plan = create_test_plan("/tmp/area", entries);

    let config = ExecutionConfig {
        backup_dir: Some("/tmp/backups".to_string()),
        ..Default::default()
    };
    let executor = ExecutionEngine::new(config);
    let st = executor.begin(&plan).unwrap();

    assert_eq!(st.planned_action(), OperationAction::MoveToBackup);
    assert_eq!(st.backup_destination().as_deref(), Some("/tmp/backups/a/b/file.txt"));
}

#[test]
fn recycle_bin_takes_priority_over_backup() {
    let entries = vec![create_cleanup_entry("a.txt", 7, CleanupAction::Delete)];
    let plan = create_test_plan("/tmp/area", entries);

    let config = ExecutionConfig {
        backup_dir: Some("/tmp/backups".to_string()),
        use_recycle_bin: true,
        ..Default::default()
    };
    let executor = ExecutionEngine::new(config);
    let st = executor.begin(&plan).unwrap();

    assert_eq!(st.planned_action(), OperationAction::MoveToRecycleBin);
}
