use megamaid::drift::{
    DriftType, Observation, VerificationConfig, VerificationEngine,
};
use megamaid::models::{CleanupAction, CleanupEntry, CleanupPlan};

fn create_test_plan(base_path: &str, entries: Vec<CleanupEntry>) -> CleanupPlan {
    CleanupPlan {
        version: "0.1.0".to_string(),
        created_at: "2025-11-19T12:00:00+00:00".to_string(),
        base_path: base_path.to_string(),
        entries,
    }
}

fn create_cleanup_entry(path: &str, size: u64, action: CleanupAction) -> CleanupEntry {
    CleanupEntry {
        path: path.to_string(),
        size,
        modified: "2025-11-19T12:00:00+00:00".to_string(),
        action,
        rule_name: "test".to_string(),
        reason: "test reason".to_string(),
    }
}

// 2025-11-19T12:00:00Z as seconds since the Unix epoch.
const RECORDED_MTIME: i64 = 1763553600;

fn present(size: u64) -> Observation {
    Observation::Present { is_dir: false, size, mtime_secs: RECORDED_MTIME }
}

#[test]
fn size_mismatch_is_one_drift_and_unsafe() {
    // A plan entry with recorded size 7 whose file now holds 1000 bytes:
    // one drift of the size-mismatch kind, and the plan is unsafe.
    let entry = create_cleanup_entry("test.txt", 7, CleanupAction::Delete);
    let plan = create_test_plan("/tmp/area", vec![entry]);

    let verifier = VerificationEngine::new(VerificationConfig::default());
    let result = verifier.verify_observed(&plan, &vec![present(1000)]).unwrap();

    assert_eq!(result.drifted.len(), 1);
    assert_eq!(result.drifted[0].drift_type, DriftType::SizeMismatch);
    assert_eq!(result.drifted[0].expected, "7 bytes");
    assert_eq!(result.drifted[0].actual, "1000 bytes");
    assert!(result.missing.is_empty());
    assert!(!result.is_safe_to_execute());
}

#[test]
fn deleted_on_disk_is_missing_not_drifted() {
    // An entry whose path is gone from the disk is reported under
    // missing, not under drifted, and the plan is unsafe.
    let entry = create_cleanup_entry("gone.txt", 7, CleanupAction::Delete);
    let plan = create_test_plan("/tmp/area", vec![entry]);

    let verifier = VerificationEngine::new(VerificationConfig::default());
    let result = verifier.verify_observed(&plan, &vec![Observation::Missing]).unwrap();

    assert_eq!(result.missing.len(), 1);
    assert_eq!(result.missing[0], "/tmp/area/gone.txt");
    assert!(result.drifted.is_empty());
    assert!(result.has_drift());
    assert!(!result.is_safe_to_execute());
}

#[test]
fn clean_snapshot_verifies_everything() {
    let entries = vec![
        create_cleanup_entry("a.txt", 10, CleanupAction::Delete),
        create_cleanup_entry("b.txt", 20, CleanupAction::Review),
    ];
    let plan = create_test_plan("/tmp/area", entries);

    let verifier = VerificationEngine::new(VerificationConfig::default());
    let obs = vec![present(10), present(20)];
    let result = verifier.verify_observed(&plan, &obs).unwrap();

    assert_eq!(result.verified, 2);
    assert!(!result.has_drift());
    assert!(result.is_safe_to_execute());
}

#[test]
fn verification_is_idempotent_on_untouched_snapshot() {
    // Verifying the same untouched snapshot twice in a row yields the
    // same verified count and no drift both times.
    let entries = vec![
        create_cleanup_entry("a.txt", 10, CleanupAction::Delete),
        create_cleanup_entry("b.txt", 20, CleanupAction::Delete),
    ];
    let plan = create_test_plan("/tmp/area", entries);
    let obs = vec![present(10), present(20)];

    let verifier = VerificationEngine::new(VerificationConfig::default());
    let first = verifier.verify_observed(&plan, &obs).unwrap();
    let second = verifier.verify_observed(&plan, &obs).unwrap();

    assert_eq!(first.verified, second.verified);
    assert_eq!(first.drifted.len(), 0);
    assert_eq!(second.drifted.len(), 0);
    assert_eq!(first.missing.len(), second.missing.len());
}

#[test]
fn test_skip_keep_actions() {
    // Entries marked Keep are verified without inspection, whatever the
    // filesystem looks like.
    let entry = create_cleanup_entry("keep.txt", 100, CleanupAction::Keep);
    let plan = create_test_plan("/tmp/area", vec![entry]);

    let verifier = VerificationEngine::new(VerificationConfig::default());
    let result = verifier.verify_observed(&plan, &vec![Observation::Missing]).unwrap();

    assert_eq!(result.verified, 1);
    assert!(!result.has_drift());
}

#[test]
fn test_fail_fast_mode() {
    let entries = vec![
        create_cleanup_entry("missing1.txt", 100, CleanupAction::Delete),
        create_cleanup_entry("missing2.txt", 100, CleanupAction::Delete),
    ];
    let plan = create_test_plan("/tmp/area", entries);

    let config = VerificationConfig { fail_fast: true, ..Default::default() };

    let verifier = VerificationEngine::new(config);
    let obs = vec![Observation::Missing, Observation::Missing];
    let result = verifier.verify_observed(&plan, &obs).unwrap();

    // Should stop after the first missing file
    assert_eq!(result.missing.len(), 1);
}

#[test]
fn mtime_drift_beyond_tolerance_detected() {
    let entry = create_cleanup_entry("touched.txt", 7, CleanupAction::Delete);
    let plan = create_test_plan("/tmp/area", vec![entry]);

    let verifier = VerificationEngine::new(VerificationConfig::default());
    let obs = vec![Observation::Present {
        is_dir: false,
        size: 7,
        mtime_secs: RECORDED_MTIME + 5,
    }];
    let result = verifier.verify_observed(&plan, &obs).unwrap();

    assert_eq!(result.drifted.len(), 1);
    assert_eq!(result.drifted[0].drift_type, DriftType::ModificationTimeMismatch);
    assert!(!result.is_safe_to_execute());
}

#[test]
fn mtime_inside_tolerance_is_clean() {
    let entry = create_cleanup_entry("touched.txt", 7, CleanupAction::Delete);
    let plan = create_test_plan("/tmp/area", vec![entry]);

    let verifier = VerificationEngine::new(VerificationConfig::default());
    let obs = vec![Observation::Present {
        is_dir: false,
        size: 7,
        mtime_secs: RECORDED_MTIME + 2,
    }];
    let result = verifier.verify_observed(&plan, &obs).unwrap();

    assert_eq!(result.verified, 1);
    assert!(!result.has_drift());
}

#[test]
fn test_skip_mtime_check() {
    // With the modification-time check disabled, a changed mtime is not
    // drift.
    let entry = create_cleanup_entry("touched.txt", 7, CleanupAction::Delete);
    let plan = create_test_plan("/tmp/area", vec![entry]);

    let config = VerificationConfig { check_mtime: false, ..Default::default() };
    let verifier = VerificationEngine::new(config);
    let obs = vec![Observation::Present {
        is_dir: false,
        size: 7,
        mtime_secs: RECORDED_MTIME + 500,
    }];
    let result = verifier.verify_observed(&plan, &obs).unwrap();

    assert_eq!(result.verified, 1);
    assert!(!result.has_drift());
}

#[test]
fn permission_warnings_never_block_execution() {
    let entry = create_cleanup_entry("locked.txt", 7, CleanupAction::Delete);
    let plan = create_test_plan("/tmp/area", vec![entry]);

    let verifier = VerificationEngine::new(VerificationConfig::default());
    let result = verifier.verify_observed(&plan, &vec![Observation::Unreadable]).unwrap();

    assert_eq!(result.permission_errors.len(), 1);
    assert!(result.is_safe_to_execute());
}

#[test]
fn invalid_recorded_timestamp_is_an_error() {
    let mut entry = create_cleanup_entry("bad.txt", 7, CleanupAction::Delete);
    entry.modified = "not a timestamp".to_string();
    let plan = create_test_plan("/tmp/area", vec![entry]);

    let verifier = VerificationEngine::new(VerificationConfig::default());
    let result = verifier.verify_observed(&plan, &vec![present(7)]);

    assert!(result.is_err());
}
