use megamaid::drift::{DriftDetection, DriftType, VerificationResult};
use megamaid::report::DriftReporter;

fn create_clean_result() -> VerificationResult {
    VerificationResult {
        total_entries: 10,
        verified: 10,
        drifted: Vec::new(),
        missing: Vec::new(),
        permission_errors: Vec::new(),
    }
}

fn create_drifted_result() -> VerificationResult {
    VerificationResult {
        total_entries: 10,
        verified: 7,
        drifted: vec![
            DriftDetection {
                path: "/test/file1.txt".to_string(),
                drift_type: DriftType::SizeMismatch,
                expected: "1000 bytes".to_string(),
                actual: "2000 bytes".to_string(),
            },
            DriftDetection {
                path: "/test/file2.txt".to_string(),
                drift_type: DriftType::ModificationTimeMismatch,
                expected: "2025-11-21T10:00:00Z".to_string(),
                actual: "2025-11-21T11:00:00Z".to_string(),
            },
        ],
        missing: vec!["/test/missing.txt".to_string()],
        permission_errors: vec!["/test/locked.txt".to_string()],
    }
}

#[test]
fn test_generate_clean_report() {
    let result = create_clean_result();
    let report = DriftReporter::generate_report(&result);

    assert!(report.contains("SAFE TO EXECUTE"));
    assert!(report.contains("Verified: 10"));
    assert!(report.contains("Drifted: 0"));
    assert!(report.contains("Missing: 0"));
}

#[test]
fn test_generate_drifted_report() {
    let result = create_drifted_result();
    let report = DriftReporter::generate_report(&result);

    assert!(report.contains("DRIFT DETECTED"));
    assert!(report.contains("NOT SAFE TO EXECUTE"));
    assert!(report.contains("Drifted: 2"));
    assert!(report.contains("Missing: 1"));
    assert!(report.contains("Size Mismatch"));
    assert!(report.contains("Modification Time Mismatch"));
}

#[test]
fn test_report_includes_missing_files() {
    let result = create_drifted_result();
    let report = DriftReporter::generate_report(&result);

    assert!(report.contains("Missing Files"));
    assert!(report.contains("missing.txt"));
}

#[test]
fn test_report_includes_permission_warnings() {
    let result = create_drifted_result();
    let report = DriftReporter::generate_report(&result);

    assert!(report.contains("Permission Warnings"));
    assert!(report.contains("locked.txt"));
    assert!(report.contains("warnings only"));
}

#[test]
fn test_report_includes_recommendations() {
    let result = create_drifted_result();
    let report = DriftReporter::generate_report(&result);

    assert!(report.contains("Recommendations"));
    assert!(report.contains("Re-scan"));
}

#[test]
fn test_clean_report_no_recommendations() {
    let result = create_clean_result();
    let report = DriftReporter::generate_report(&result);

    assert!(!report.contains("Recommendations"));
}
