use megamaid::detector::{
    CustomRule, DetectionEngine, RuleKind, ScanContext, SizeThresholdRule,
};
use megamaid::models::{EntryType, FileEntry};

fn create_test_entry(path: &str, size: u64) -> FileEntry {
    FileEntry::new(path.to_string(), size, 1732017600, EntryType::File)
}

fn create_test_entry_dir(path: &str) -> FileEntry {
    FileEntry::new(path.to_string(), 0, 1732017600, EntryType::Directory)
}

fn always_rule(name: &str, reason: &str) -> RuleKind {
    RuleKind::Custom(CustomRule {
        name: name.to_string(),
        reason: reason.to_string(),
        min_size: None,
        extensions: Vec::new(),
    })
}

#[test]
fn source_files_are_not_flagged() {
    let engine = DetectionEngine::new();
    let ctx = ScanContext::default();
    let src_file = create_test_entry("src/main.rs", 10);

    let results = engine.analyze(&[src_file], &ctx);
    assert!(results.is_empty());
}

#[test]
fn test_engine_applies_multiple_rules() {
    let engine = DetectionEngine::new();

    let entries = vec![
        create_test_entry("large.bin", 200_000_000), // 200MB - size rule
        create_test_entry_dir("target"),             // build artifact rule
        create_test_entry("normal.txt", 1024),       // should not flag
    ];

    let results = engine.analyze(&entries, &ScanContext::default());

    assert_eq!(results.len(), 2);
    assert!(results.iter().any(|r| r.rule_name == "large_file"));
    assert!(results.iter().any(|r| r.rule_name == "build_artifact"));
}

#[test]
fn test_engine_only_flags_once_per_entry() {
    // Create an engine with overlapping rules
    let mut engine = DetectionEngine::empty();

    // Add two rules that would both match
    engine.add_rule(RuleKind::Size(SizeThresholdRule { threshold_bytes: 1000 }));
    engine.add_rule(RuleKind::Size(SizeThresholdRule { threshold_bytes: 500 }));

    let large_file = create_test_entry("large.bin", 2000);

    let results = engine.analyze(&[large_file], &ScanContext::default());

    // Should only flag once (first rule wins)
    assert_eq!(results.len(), 1, "Should only flag once per entry");
}

#[test]
fn test_custom_rule_integration() {
    let mut engine = DetectionEngine::empty();
    engine.add_rule(always_rule("test", "test reason"));

    let entry = create_test_entry("test.txt", 1);
    let results = engine.analyze(&[entry], &ScanContext::default());

    assert_eq!(results.len(), 1);
    assert_eq!(results[0].rule_name, "test");
    assert_eq!(results[0].reason, "test reason");
}

#[test]
fn test_empty_engine() {
    let engine = DetectionEngine::empty();

    assert_eq!(engine.rule_count(), 0);

    let entries = vec![
        create_test_entry("file.txt", 1_000_000_000),
        create_test_entry_dir("target"),
    ];

    let results = engine.analyze(&entries, &ScanContext::default());

    // No rules, so nothing should be flagged
    assert_eq!(results.len(), 0);
}

#[test]
fn test_default_engine_has_rules() {
    let engine = DetectionEngine::default();

    assert_eq!(engine.rule_count(), 2); // SizeThreshold + BuildArtifact
}

#[test]
fn test_detection_result_contains_entry() {
    let engine = DetectionEngine::new();

    let entry = create_test_entry_dir("target");
    let results = engine.analyze(std::slice::from_ref(&entry), &ScanContext::default());

    assert_eq!(results.len(), 1);
    assert_eq!(results[0].entry.path, entry.path);
}

#[test]
fn test_analyze_empty_entries() {
    let engine = DetectionEngine::new();
    let results = engine.analyze(&[], &ScanContext::default());

    assert_eq!(results.len(), 0);
}

#[test]
fn test_rule_priority() {
    // First rule should win when multiple match
    let mut engine = DetectionEngine::empty();

    engine.add_rule(always_rule("first", "first"));
    engine.add_rule(always_rule("second", "second"));

    let entry = create_test_entry("test.txt", 100);
    let results = engine.analyze(&[entry], &ScanContext::default());

    assert_eq!(results.len(), 1);
    assert_eq!(results[0].rule_name, "first"); // First rule wins
}

#[test]
fn test_build_artifact_under_project_root_still_flagged() {
    // A generated-output directory beneath a protected project root is
    // still flagged, while the root itself is never flagged even though
    // a manifest sits directly inside it. The current directory of a
    // test run is such a root: it holds this crate's manifest.
    let engine = DetectionEngine::new();
    let ctx = ScanContext::default();

    let root = create_test_entry_dir(".");
    let build_below = create_test_entry_dir("target");

    let results = engine.analyze(&[root, build_below], &ctx);

    assert_eq!(results.len(), 1);
    assert_eq!(results[0].rule_name, "build_artifact");
    assert_eq!(results[0].entry.path, "target");
}
