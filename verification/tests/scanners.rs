use techscan::{LanguageScanner, Scanner, TechScanError};

#[test]
fn language_scanner_test_scanner_nonexistent_directory() {
    let result = LanguageScanner::new("nonexistent/directory", None);

    assert!(result.is_err());

    match result.unwrap_err() {
        TechScanError::DirectoryNotFound(path) => {
            assert_eq!(path, "nonexistent/directory");
        },
        _ => panic!("Expected DirectoryNotFound error"),
    }
}

#[test]
#[should_panic(expected = "Directory does not exist")]
fn scanner_test_scanner_nonexistent_directory() {
    Scanner::new("nonexistent/directory".to_string(), None).expect("This should panic");
}

#[test]
fn directory_not_found_message_names_the_path() {
    let err = LanguageScanner::new("nonexistent/directory", None).unwrap_err();
    assert_eq!(err.message(), "Directory not found: nonexistent/directory");
}

#[test]
fn bad_exclude_pattern_is_a_validation_error() {
    let opts = techscan::LanguageScannerOptions { exclude: vec!["a[".to_string()] };
    let scanner = LanguageScanner::new(".", Some(opts)).expect("current directory exists");
    let err = scanner.scan().unwrap_err();
    match err {
        TechScanError::ValidationError(msg) => {
            assert!(msg.contains("Failed to add exclude pattern '!a['"), "got: {}", msg);
        },
        other => panic!("Expected ValidationError, got {:?}", other),
    }
}

#[test]
fn scan_with_warnings_reports_no_warnings_on_a_readable_tree() {
    let scanner = LanguageScanner::new("src", None).expect("source directory exists");
    let (files, warnings) = scanner.scan_with_warnings().expect("Scanning should succeed");
    assert!(!files.is_empty());
    assert!(warnings.is_empty(), "every entry of the source tree is readable");
}
