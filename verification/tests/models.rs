use megamaid::models::{CleanupAction, CleanupEntry, CleanupPlan, EntryType, FileEntry};

#[test]
fn test_file_entry_creation() {
    let path = String::from("/test/file.txt");
    let size = 1024;
    let modified: i64 = 1732017600;

    let entry = FileEntry::new(path.clone(), size, modified, EntryType::File);

    assert_eq!(entry.path, path);
    assert_eq!(entry.size, size);
    assert_eq!(entry.modified, modified);
    assert_eq!(entry.entry_type, EntryType::File);
    assert_eq!(entry.file_id, None);
}

#[test]
fn test_file_entry_with_file_id() {
    let path = String::from("/test/file.txt");
    let file_id = Some(123456);

    let entry = FileEntry::with_file_id(path.clone(), 1024, 1732017600, EntryType::File, file_id);

    assert_eq!(entry.file_id, file_id);
}

#[test]
fn test_file_id_optional() {
    // Verify file_id can be None (for non-NTFS)
    let entry = FileEntry::new(String::from("/test"), 0, 1732017600, EntryType::Directory);

    assert_eq!(entry.file_id, None);
}

#[test]
fn test_is_file() {
    let file_entry = FileEntry::new(
        String::from("/test/file.txt"),
        100,
        1732017600,
        EntryType::File,
    );

    assert!(file_entry.is_file());
    assert!(!file_entry.is_directory());
}

#[test]
fn test_is_directory() {
    let dir_entry = FileEntry::new(String::from("/test/dir"), 0, 1732017600, EntryType::Directory);

    assert!(dir_entry.is_directory());
    assert!(!dir_entry.is_file());
}

#[test]
fn test_file_entry_ordering_by_size() {
    let small = FileEntry::new(String::from("/small.txt"), 100, 1732017600, EntryType::File);

    let large = FileEntry::new(String::from("/large.txt"), 1000, 1732017600, EntryType::File);

    let mut entries = vec![large.clone(), small.clone()];
    entries.sort_by(|a, b| b.size.cmp(&a.size));

    assert_eq!(entries[0].size, 1000);
    assert_eq!(entries[1].size, 100);
}

#[test]
fn test_cleanup_plan_creation() {
    let base_path = String::from("/test/project");
    let plan = CleanupPlan::new(base_path.clone());

    assert_eq!(plan.version, "1.0");
    assert_eq!(plan.base_path, base_path);
    assert_eq!(plan.entries.len(), 0);
}

#[test]
fn test_add_entry() {
    let mut plan = CleanupPlan::new(String::from("/test"));

    let entry = CleanupEntry::new(
        "target/debug".to_string(),
        1_000_000,
        "2025-11-19T12:00:00Z".to_string(),
        CleanupAction::Delete,
        "build_artifact".to_string(),
        "Build artifact".to_string(),
    );

    plan.add_entry(entry);
    assert_eq!(plan.entries.len(), 1);
}

#[test]
fn test_total_size() {
    let mut plan = CleanupPlan::new(String::from("/test"));

    plan.add_entry(CleanupEntry::new(
        "file1.txt".to_string(),
        1000,
        "2025-11-19T12:00:00Z".to_string(),
        CleanupAction::Delete,
        "test_rule".to_string(),
        "Test".to_string(),
    ));

    plan.add_entry(CleanupEntry::new(
        "file2.txt".to_string(),
        2000,
        "2025-11-19T12:00:00Z".to_string(),
        CleanupAction::Review,
        "test_rule".to_string(),
        "Test".to_string(),
    ));

    assert_eq!(plan.total_size(), 3000);
}

#[test]
fn test_action_counts() {
    let mut plan = CleanupPlan::new(String::from("/test"));

    plan.add_entry(CleanupEntry::new(
        "file1.txt".to_string(),
        1000,
        "2025-11-19T12:00:00Z".to_string(),
        CleanupAction::Delete,
        "test_rule".to_string(),
        "Test".to_string(),
    ));

    plan.add_entry(CleanupEntry::new(
        "file2.txt".to_string(),
        2000,
        "2025-11-19T12:00:00Z".to_string(),
        CleanupAction::Review,
        "test_rule".to_string(),
        "Test".to_string(),
    ));

    plan.add_entry(CleanupEntry::new(
        "file3.txt".to_string(),
        3000,
        "2025-11-19T12:00:00Z".to_string(),
        CleanupAction::Keep,
        "test_rule".to_string(),
        "Test".to_string(),
    ));

    assert_eq!(plan.delete_count(), 1);
    assert_eq!(plan.review_count(), 1);
    assert_eq!(plan.keep_count(), 1);
}

#[test]
fn test_relative_path_handling() {
    let entry = CleanupEntry::new(
        "subfolder/target/debug".to_string(),
        1000,
        "2025-11-19T12:00:00Z".to_string(),
        CleanupAction::Delete,
        "test_rule".to_string(),
        "Test".to_string(),
    );

    // Paths should be stored as strings, relative to base_path
    assert_eq!(entry.path, "subfolder/target/debug");
    assert!(!entry.path.starts_with('/'));
}
