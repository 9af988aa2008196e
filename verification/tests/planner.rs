use megamaid::detector::DetectionResult;
use megamaid::models::{CleanupAction, EntryType, FileEntry};
use megamaid::planner::PlanGenerator;

fn create_test_detection(path: &str, size: u64, rule_name: &str, reason: &str) -> DetectionResult {
    DetectionResult {
        entry: FileEntry::new(path.to_string(), size, 1732017600, EntryType::File),
        rule_name: rule_name.to_string(),
        reason: reason.to_string(),
    }
}

fn create_test_detection_dir(path: &str, rule_name: &str, reason: &str) -> DetectionResult {
    DetectionResult {
        entry: FileEntry::new(path.to_string(), 0, 1732017600, EntryType::Directory),
        rule_name: rule_name.to_string(),
        reason: reason.to_string(),
    }
}

#[test]
fn test_generate_empty_plan() {
    let generator = PlanGenerator::new("/test".to_string());
    let plan = generator.generate(Vec::new());

    assert_eq!(plan.entries.len(), 0);
    assert_eq!(plan.base_path, "/test");
    assert_eq!(plan.version, "1.0");
}

#[test]
fn test_generate_with_detections() {
    let generator = PlanGenerator::new("/test".to_string());

    let detections = vec![
        create_test_detection("/test/target", 1000, "build_artifact", "Build artifact"),
        create_test_detection("/test/large.bin", 200_000_000, "large_file", "Large file"),
    ];

    let plan = generator.generate(detections);

    assert_eq!(plan.entries.len(), 2);
    assert_eq!(plan.base_path, "/test");
}

#[test]
fn test_build_artifact_defaults_to_delete() {
    let generator = PlanGenerator::new("/test".to_string());

    let detections = vec![create_test_detection(
        "/test/target",
        1000,
        "build_artifact",
        "Build artifact",
    )];

    let plan = generator.generate(detections);

    assert_eq!(plan.entries[0].action, CleanupAction::Delete);
}

#[test]
fn test_large_file_defaults_to_review() {
    let generator = PlanGenerator::new("/test".to_string());

    let detections = vec![create_test_detection(
        "/test/large.bin",
        200_000_000,
        "large_file",
        "Large file",
    )];

    let plan = generator.generate(detections);

    assert_eq!(plan.entries[0].action, CleanupAction::Review);
}

#[test]
fn test_unknown_rule_defaults_to_review() {
    let generator = PlanGenerator::new("/test".to_string());

    let detections = vec![create_test_detection("/test/file.txt", 1000, "unknown_rule", "Unknown")];

    let plan = generator.generate(detections);

    assert_eq!(plan.entries[0].action, CleanupAction::Review);
}

#[test]
fn test_preserves_detection_metadata() {
    let generator = PlanGenerator::new("/test".to_string());

    let detections = vec![create_test_detection("/test/file.txt", 12345, "test_rule", "Test reason")];

    let plan = generator.generate(detections);

    // Path should be relative to base path
    assert_eq!(plan.entries[0].path, "file.txt");
    assert_eq!(plan.entries[0].size, 12345);
    assert_eq!(plan.entries[0].rule_name, "test_rule");
    assert_eq!(plan.entries[0].reason, "Test reason");
}

#[test]
fn test_base_path_accessor() {
    let generator = PlanGenerator::new("/test".to_string());

    assert_eq!(generator.base_path(), "/test");
}

#[test]
fn descendants_of_deleted_directory_are_dropped() {
    // A directory assigned Delete swallows every detection strictly
    // below it: descendants are dropped from the plan entirely.
    let generator = PlanGenerator::new("/test".to_string());

    let detections = vec![
        create_test_detection_dir("/test/target", "build_artifact", "Build artifact"),
        create_test_detection_dir("/test/target/debug", "build_artifact", "Build artifact"),
        create_test_detection("/test/target/debug/huge.o", 500_000_000, "large_file", "Large"),
        create_test_detection("/test/other.bin", 200_000_000, "large_file", "Large"),
    ];

    let plan = generator.generate(detections);

    assert_eq!(plan.entries.len(), 2);
    assert_eq!(plan.entries[0].path, "target");
    assert_eq!(plan.entries[0].action, CleanupAction::Delete);
    assert_eq!(plan.entries[1].path, "other.bin");
    for e in &plan.entries {
        assert!(!e.path.starts_with("target/"));
    }
}

#[test]
fn base_path_detection_uses_sentinel() {
    // A detection whose path equals the base path is represented by the
    // single-character sentinel, never an empty string.
    let generator = PlanGenerator::new("/test".to_string());

    let detections = vec![create_test_detection_dir("/test", "unknown_rule", "Whole tree")];

    let plan = generator.generate(detections);

    assert_eq!(plan.entries.len(), 1);
    assert_eq!(plan.entries[0].path, ".");
}

#[test]
fn file_sized_delete_does_not_swallow_lookalikes() {
    // Only directories assigned Delete prune descendants; a file marked
    // Delete never does.
    let generator = PlanGenerator::new("/t".to_string());

    let detections = vec![
        create_test_detection_dir("/t/build", "build_artifact", "Build artifact"),
        create_test_detection("/t/build.log", 200_000_000, "large_file", "Large"),
    ];

    let plan = generator.generate(detections);

    assert_eq!(plan.entries.len(), 2);
}

#[test]
fn modified_timestamps_are_rendered_rfc3339() {
    // The detection's modification time, 2024-11-19T12:00:00 UTC as epoch
    // seconds, is recorded in the plan as its RFC 3339 rendering.
    let generator = PlanGenerator::new("/test".to_string());

    let detections = vec![create_test_detection("/test/file.txt", 1, "unknown_rule", "r")];
    let plan = generator.generate(detections);

    assert_eq!(plan.entries[0].modified, "2024-11-19T12:00:00+00:00");
}

#[test]
fn trailing_separator_detection_never_yields_empty_path() {
    // The base path followed by nothing but a separator rebases to the
    // sentinel, never to an empty entry path.
    let generator = PlanGenerator::new("/test".to_string());

    let detections = vec![create_test_detection_dir("/test/", "unknown_rule", "Whole tree")];
    let plan = generator.generate(detections);

    assert_eq!(plan.entries.len(), 1);
    assert_eq!(plan.entries[0].path, ".");
    assert!(megamaid::planner::PlanWriter::validate(&plan).is_ok());
}
