//! Walks over a real directory tree: the crate's own sources.

use techscan::{LanguageScanner, LanguageScannerOptions, Scanner, ScannerOptions};

#[test]
fn scan_discovers_regular_files() {
    let scanner = LanguageScanner::new("src", None)
        .expect("LanguageScanner creation should succeed for existing directory");

    let files = scanner.scan().expect("Scanning should succeed");

    assert!(!files.is_empty(), "the source tree holds files");
    let has_rust_files = files.iter().any(|f| f.ext.as_ref() == Some(&"rs".to_string()));
    assert!(has_rust_files, "the source tree holds Rust files");
    for f in &files {
        if f.path.ends_with(".rs") {
            assert_eq!(f.ext, Some("rs".to_string()));
        }
    }
}

#[test]
fn language_scanner_test_scan_with_exclude_pattern() {
    // Excluding the Rust extension removes every Rust file from the
    // discovered set.
    let opts = LanguageScannerOptions {
        exclude: vec!["target".to_string(), "*.rs".to_string()],
    };
    let scanner =
        LanguageScanner::new(".", Some(opts)).expect("LanguageScanner creation should succeed");
    let files = scanner.scan().expect("Scanning should succeed");
    let has_rust_files = files.iter().any(|f| f.ext.as_ref() == Some(&"rs".to_string()));
    assert!(!has_rust_files, "Rust files should be excluded");

    // Excluding a different extension leaves the Rust files present.
    let opts = LanguageScannerOptions {
        exclude: vec!["target".to_string(), "*.js".to_string()],
    };
    let scanner =
        LanguageScanner::new(".", Some(opts)).expect("LanguageScanner creation should succeed");
    let files = scanner.scan().expect("Scanning should succeed");
    let has_rust_files = files.iter().any(|f| f.ext.as_ref() == Some(&"rs".to_string()));
    assert!(has_rust_files, "Rust files should be included");
}

#[test]
fn language_scanner_test_scan_with_multiple_exclude_patterns() {
    let opts = LanguageScannerOptions {
        exclude: vec![
            "target".to_string(),
            "*.rs".to_string(),
            "*.js".to_string(),
            "*.rb".to_string(),
        ],
    };
    let scanner =
        LanguageScanner::new(".", Some(opts)).expect("LanguageScanner creation should succeed");
    let files = scanner.scan().expect("Scanning should succeed");
    let excluded_extensions = ["rs", "js", "rb"];
    for ext in excluded_extensions.iter() {
        let has_files = files.iter().any(|f| f.ext.as_ref() == Some(&ext.to_string()));
        assert!(!has_files, "Files with extension '{}' should be excluded", ext);
    }

    // Exactly those three: excluding other extensions leaves Rust alone.
    let opts = LanguageScannerOptions {
        exclude: vec![
            "target".to_string(),
            "*.js".to_string(),
            "*.rb".to_string(),
            "*.py".to_string(),
        ],
    };
    let scanner =
        LanguageScanner::new(".", Some(opts)).expect("LanguageScanner creation should succeed");
    let files = scanner.scan().expect("Scanning should succeed");
    let has_rust_files = files.iter().any(|f| f.ext.as_ref() == Some(&"rs".to_string()));
    assert!(has_rust_files, "Rust files should be included");
}

#[test]
fn scanner_test_scan_with_exclude_pattern() {
    let opts = ScannerOptions {
        exclude: vec!["target".to_string(), "*.rs".to_string()],
    };
    let scanner =
        Scanner::new(".".to_string(), Some(opts)).expect("Scanner creation should succeed");
    let files = scanner.scan().expect("Scanning should succeed");
    let has_rust_files = files.iter().any(|f| f.ext.as_ref() == Some(&"rs".to_string()));
    assert!(!has_rust_files, "Rust files should be excluded");

    let opts = ScannerOptions {
        exclude: vec!["target".to_string(), "*.js".to_string()],
    };
    let scanner =
        Scanner::new(".".to_string(), Some(opts)).expect("Scanner creation should succeed");
    let files = scanner.scan().expect("Scanning should succeed");
    let has_rust_files = files.iter().any(|f| f.ext.as_ref() == Some(&"rs".to_string()));
    assert!(has_rust_files, "Rust files should be included");
}

#[test]
fn scanner_test_scan_with_multiple_exclude_patterns() {
    let opts = ScannerOptions {
        exclude: vec![
            "target".to_string(),
            "*.rs".to_string(),
            "*.js".to_string(),
            "*.rb".to_string(),
        ],
    };
    let scanner =
        Scanner::new(".".to_string(), Some(opts)).expect("Scanner creation should succeed");
    let files = scanner.scan().expect("Scanning should succeed");
    let excluded_extensions = ["rs", "js", "rb"];
    for ext in excluded_extensions.iter() {
        let has_files = files.iter().any(|f| f.ext.as_ref() == Some(&ext.to_string()));
        assert!(!has_files, "Files with extension '{}' should be excluded", ext);
    }

    let opts = ScannerOptions {
        exclude: vec![
            "target".to_string(),
            "*.js".to_string(),
            "*.rb".to_string(),
            "*.py".to_string(),
        ],
    };
    let scanner =
        Scanner::new(".".to_string(), Some(opts)).expect("Scanner creation should succeed");
    let files = scanner.scan().expect("Scanning should succeed");
    let has_rust_files = files.iter().any(|f| f.ext.as_ref() == Some(&"rs".to_string()));
    assert!(has_rust_files, "Rust files should be included");
}
