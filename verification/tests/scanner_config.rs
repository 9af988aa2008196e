use megamaid::scanner::{FileScanner, ScanConfig, ScanEvent};
use megamaid::walk::{sum_file_sizes, ScanError, SizeProbe};

#[test]
fn traversal_test_default_config() {
    let config = ScanConfig::default();

    assert!(!config.follow_links);
    assert_eq!(config.max_depth, None);
    assert!(!config.skip_hidden);
}

#[test]
fn test_nonexistent_path() {
    let scanner = FileScanner::new(ScanConfig::default());
    let result = scanner.scan("/nonexistent/path");

    assert!(result.is_err());
    match result {
        Err(ScanError::PathNotFound(_)) => (),
        _ => panic!("Expected PathNotFound error"),
    }
}

#[test]
fn scan_of_this_crate_respects_hidden_filter() {
    // The crate's own directory exists wherever the tests run; with
    // hidden skipping on, no returned entry has a hidden base name.
    let config = ScanConfig { skip_hidden: true, ..Default::default() };
    let scanner = FileScanner::new(config);
    let entries = scanner.scan("src").expect("the source directory exists");

    assert!(!entries.is_empty());
    for e in &entries {
        let base = e.path.rsplit('/').next().unwrap_or(&e.path);
        assert!(!(base.starts_with('.') && base != "."), "hidden entry {}", e.path);
    }
}

#[test]
fn scan_reports_files_and_directories() {
    let scanner = FileScanner::new(ScanConfig::default());
    let entries = scanner.scan("src").expect("the source directory exists");

    assert!(entries.iter().any(|e| e.is_directory()));
    assert!(entries.iter().any(|e| e.is_file()));
    let root = entries.iter().find(|e| e.path == "src").expect("the root is included");
    assert!(root.is_directory());
    assert!(root.size > 0, "a directory's size is the sum of the files below it");
}

#[test]
fn scan_observed_filters_hidden_and_collects_errors() {
    let scanner = FileScanner::new(ScanConfig { skip_hidden: true, ..Default::default() });
    let events = vec![
        ScanEvent::Found { path: "r".to_string(), is_dir: true, size: 10, mtime_secs: 5 },
        ScanEvent::Found { path: "r/.hidden".to_string(), is_dir: false, size: 1, mtime_secs: 5 },
        ScanEvent::Failed(ScanError::PermissionDenied("locked".to_string())),
        ScanEvent::Found { path: "r/a.txt".to_string(), is_dir: false, size: 7, mtime_secs: 5 },
    ];

    let (entries, errors) = scanner.scan_observed(&events);

    assert_eq!(entries.len(), 2);
    assert_eq!(entries[0].path, "r");
    assert!(entries[0].is_directory());
    assert_eq!(entries[0].size, 10);
    assert_eq!(entries[1].path, "r/a.txt");
    assert!(entries[1].is_file());
    assert_eq!(errors.len(), 1);
    assert!(matches!(errors[0], ScanError::PermissionDenied(_)));
}

#[test]
fn scan_observed_keeps_hidden_when_not_skipping() {
    let scanner = FileScanner::new(ScanConfig::default());
    let events = vec![
        ScanEvent::Found { path: "r/.hidden".to_string(), is_dir: false, size: 1, mtime_secs: 5 },
    ];

    let (entries, errors) = scanner.scan_observed(&events);

    assert_eq!(entries.len(), 1);
    assert_eq!(entries[0].path, "r/.hidden");
    assert!(errors.is_empty());
}

#[test]
fn directory_size_sums_only_regular_files() {
    let probes = vec![
        SizeProbe::File { len: 100 },
        SizeProbe::Other,
        SizeProbe::Unreadable,
        SizeProbe::File { len: 200 },
    ];

    assert_eq!(sum_file_sizes(&probes), 300);
    assert_eq!(sum_file_sizes(&Vec::new()), 0);
}
