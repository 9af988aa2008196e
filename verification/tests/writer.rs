use megamaid::codec::parse_plan;
use megamaid::models::{CleanupAction, CleanupEntry, CleanupPlan};
use megamaid::planner::{PlanWriter, WriteError};

fn create_test_plan() -> CleanupPlan {
    let mut plan = CleanupPlan {
        version: "0.1.0".to_string(),
        created_at: "2025-11-19T12:00:00+00:00".to_string(),
        base_path: "/test".to_string(),
        entries: Vec::new(),
    };

    plan.add_entry(CleanupEntry {
        path: "target".to_string(),
        size: 1000,
        modified: "2025-11-19T12:00:00Z".to_string(),
        action: CleanupAction::Delete,
        rule_name: "build_artifact".to_string(),
        reason: "Build artifact".to_string(),
    });

    plan
}

#[test]
fn test_validate_rejects_empty_base_path() {
    let plan = CleanupPlan {
        version: "0.1.0".to_string(),
        created_at: "2025-11-19T12:00:00+00:00".to_string(),
        base_path: String::new(), // Empty path
        entries: Vec::new(),
    };

    let result = PlanWriter::validate(&plan);
    assert!(result.is_err());
    assert!(matches!(result.unwrap_err(), WriteError::Validation(_)));
}

#[test]
fn test_validate_rejects_empty_entry_path() {
    let mut plan = CleanupPlan {
        version: "0.1.0".to_string(),
        created_at: "2025-11-19T12:00:00+00:00".to_string(),
        base_path: "/test".to_string(),
        entries: Vec::new(),
    };

    plan.add_entry(CleanupEntry {
        path: String::new(), // Empty path
        size: 1000,
        modified: "2025-11-19T12:00:00Z".to_string(),
        action: CleanupAction::Delete,
        rule_name: "test".to_string(),
        reason: "Test".to_string(),
    });

    let result = PlanWriter::validate(&plan);
    assert!(result.is_err());
}

#[test]
fn test_validate_accepts_valid_plan() {
    let plan = create_test_plan();
    let result = PlanWriter::validate(&plan);
    assert!(result.is_ok());
}

#[test]
fn test_temp_path_generation() {
    let temp = PlanWriter::temp_path("/test/plan.yaml");

    assert_eq!(temp, "/test/plan.tmp");
}

#[test]
fn temp_path_without_extension_appends() {
    let temp = PlanWriter::temp_path("/test/plan");

    assert_eq!(temp, "/test/plan.tmp");
}

#[test]
fn render_then_parse_preserves_all_fields() {
    let plan = create_test_plan();

    let text = PlanWriter::render(&plan).unwrap();
    let loaded = parse_plan(&text).unwrap();

    assert_eq!(loaded.version, plan.version);
    assert_eq!(loaded.created_at, plan.created_at);
    assert_eq!(loaded.base_path, plan.base_path);
    assert_eq!(loaded.entries.len(), plan.entries.len());
    assert_eq!(loaded.entries[0].path, plan.entries[0].path);
    assert_eq!(loaded.entries[0].size, plan.entries[0].size);
    assert_eq!(loaded.entries[0].modified, plan.entries[0].modified);
    assert_eq!(loaded.entries[0].action, plan.entries[0].action);
    assert_eq!(loaded.entries[0].rule_name, plan.entries[0].rule_name);
    assert_eq!(loaded.entries[0].reason, plan.entries[0].reason);
}

#[test]
fn render_rejects_invalid_plan_before_any_output() {
    let plan = CleanupPlan {
        version: "1.0".to_string(),
        created_at: "2025-11-19T12:00:00+00:00".to_string(),
        base_path: String::new(),
        entries: Vec::new(),
    };

    assert!(PlanWriter::render(&plan).is_err());
}
