use megamaid::executor::{
    ExecutionConfig, ExecutionEngine, OperationAction, OperationResult, OperationStatus,
};
use megamaid::models::{CleanupAction, CleanupEntry, CleanupPlan};
use megamaid::transaction::{parse_log, TransactionLogger, TransactionOptions, TransactionStatus};

fn options() -> TransactionOptions {
    TransactionOptions {
        dry_run: false,
        backup_dir: None,
        use_recycle_bin: false,
        fail_fast: false,
    }
}

fn create_test_operation(path: &str, status: OperationStatus, size_freed: Option<u64>) -> OperationResult {
    OperationResult {
        path: path.to_string(),
        action: OperationAction::Delete,
        status,
        size_freed,
        error: None,
        timestamp: 1763553600,
    }
}

fn finished_result() -> megamaid::executor::ExecutionResult {
    let plan = CleanupPlan {
        version: "1.0".to_string(),
        created_at: "2025-11-19T12:00:00+00:00".to_string(),
        base_path: "/tmp/area".to_string(),
        entries: vec![
            CleanupEntry {
                path: "test1.txt".to_string(),
                size: 1000,
                modified: "2025-11-19T12:00:00+00:00".to_string(),
                action: CleanupAction::Delete,
                rule_name: "t".to_string(),
                reason: "t".to_string(),
            },
            CleanupEntry {
                path: "test2.txt".to_string(),
                size: 2000,
                modified: "2025-11-19T12:00:00+00:00".to_string(),
                action: CleanupAction::Delete,
                rule_name: "t".to_string(),
                reason: "t".to_string(),
            },
        ],
    };
    let engine = ExecutionEngine::new(ExecutionConfig::default());
    let mut st = engine.begin(&plan).unwrap();
    st.record_outcome(true, None, 1);
    st.record_outcome(true, None, 2);
    st.finish(5000)
}

#[test]
fn test_log_operations() {
    let mut logger = TransactionLogger::new("/tmp/plan.doc", "/tmp/tx.doc".to_string(), options());

    let op = create_test_operation("test.txt", OperationStatus::Success, Some(1000));
    logger.log_operation(&op);

    assert_eq!(logger.log().operations.len(), 1);
    assert_eq!(logger.log().operations[0].path, "test.txt");
}

#[test]
fn test_finalize_transaction() {
    let mut logger = TransactionLogger::new("/tmp/plan.doc", "/tmp/tx.doc".to_string(), options());
    let result = finished_result();

    logger.finalize(&result, TransactionStatus::Completed);

    assert_eq!(logger.log().status, TransactionStatus::Completed);
    assert!(logger.log().completed_at.is_some());
    assert!(logger.log().summary.is_some());

    let summary = logger.log().summary.unwrap();
    assert_eq!(summary.total_operations, 2);
    assert_eq!(summary.successful, 2);
    assert_eq!(summary.space_freed, 3000);
}

#[test]
fn test_execution_id_generation() {
    let logger1 = TransactionLogger::new("/tmp/plan.doc", "/tmp/tx.doc".to_string(), options());
    let logger2 = TransactionLogger::new("/tmp/plan.doc", "/tmp/tx.doc".to_string(), options());

    // Each logger should have a unique execution ID
    assert_ne!(logger1.execution_id(), logger2.execution_id());
    assert_eq!(logger1.execution_id().len(), 36);
}

#[test]
fn test_log_operation_with_error() {
    let mut logger = TransactionLogger::new("/tmp/plan.doc", "/tmp/tx.doc".to_string(), options());

    let mut op = create_test_operation("test.txt", OperationStatus::Failed, None);
    op.error = Some("Permission denied".to_string());

    logger.log_operation(&op);

    assert_eq!(logger.log().operations.len(), 1);
    assert_eq!(logger.log().operations[0].status, "Failed");
    assert_eq!(logger.log().operations[0].error, Some("Permission denied".to_string()));
}

#[test]
fn test_dry_run_mode_in_log() {
    let opts = TransactionOptions { dry_run: true, ..options() };
    let logger = TransactionLogger::new("/tmp/plan.doc", "/tmp/tx.doc".to_string(), opts);

    assert_eq!(logger.log().mode, "dry_run");
    assert!(logger.log().options.dry_run);
}

#[test]
fn new_log_starts_in_progress() {
    let logger = TransactionLogger::new("/tmp/plan.doc", "/tmp/tx.doc".to_string(), options());

    assert_eq!(logger.log().status, TransactionStatus::InProgress);
    assert!(logger.log().completed_at.is_none());
    assert!(logger.log().summary.is_none());
    assert_eq!(logger.log().plan_file, "/tmp/plan.doc");
    assert_eq!(logger.log().mode, "batch");
    assert_eq!(logger.log_path(), "/tmp/tx.doc");
}

#[test]
fn rendered_log_holds_the_record() {
    let mut logger = TransactionLogger::new("/tmp/plan.doc", "/tmp/tx.doc".to_string(), options());
    let mut op = create_test_operation("a.txt", OperationStatus::Success, Some(10));
    op.error = Some("earlier try failed".to_string());
    logger.log_operation(&op);
    let result = finished_result();
    logger.finalize(&result, TransactionStatus::Completed);

    let text = logger.render();

    assert!(text.contains("plan_file /tmp/plan.doc\n"));
    assert!(text.contains("status completed\n"));
    assert!(text.contains("op_path a.txt\n"));
    assert!(text.contains("op_status Success\n"));
    assert!(text.contains("op_size_freed some 10\n"));
    assert!(text.contains("op_error some earlier try failed\n"));
    assert!(text.contains("operations 1\n"));
    assert!(text.contains("summary some\n"));
    assert!(text.contains("successful 2\n"));
    assert!(text.contains(&format!("execution_id {}\n", logger.execution_id())));
}

#[test]
fn log_round_trips_through_the_document_text() {
    let opts = TransactionOptions {
        dry_run: false,
        backup_dir: Some("/tmp/backups".to_string()),
        use_recycle_bin: true,
        fail_fast: true,
    };
    let mut logger = TransactionLogger::new("/tmp/plan.doc", "/tmp/tx.doc".to_string(), opts);
    let mut op = create_test_operation("dir/with spaces/x.txt", OperationStatus::Failed, None);
    op.error = Some("line one\nline two".to_string());
    logger.log_operation(&op);
    logger.finalize(&finished_result(), TransactionStatus::Failed);

    let text = logger.render();
    let loaded = parse_log(&text).expect("the rendering must parse");

    assert_eq!(loaded.version, logger.log().version);
    assert_eq!(loaded.execution_id, logger.log().execution_id);
    assert_eq!(loaded.plan_file, logger.log().plan_file);
    assert_eq!(loaded.started_at, logger.log().started_at);
    assert_eq!(loaded.completed_at, logger.log().completed_at);
    assert_eq!(loaded.status, logger.log().status);
    assert_eq!(loaded.mode, logger.log().mode);
    assert_eq!(loaded.options.dry_run, logger.log().options.dry_run);
    assert_eq!(loaded.options.backup_dir, logger.log().options.backup_dir);
    assert_eq!(loaded.options.use_recycle_bin, logger.log().options.use_recycle_bin);
    assert_eq!(loaded.options.fail_fast, logger.log().options.fail_fast);
    assert_eq!(loaded.operations.len(), 1);
    assert_eq!(loaded.operations[0].path, logger.log().operations[0].path);
    assert_eq!(loaded.operations[0].action, logger.log().operations[0].action);
    assert_eq!(loaded.operations[0].status, logger.log().operations[0].status);
    assert_eq!(loaded.operations[0].size_freed, logger.log().operations[0].size_freed);
    assert_eq!(loaded.operations[0].error, logger.log().operations[0].error);
    assert_eq!(loaded.operations[0].timestamp, logger.log().operations[0].timestamp);
    assert_eq!(loaded.summary, logger.log().summary);
}
