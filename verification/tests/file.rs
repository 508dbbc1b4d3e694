use techscan::File;

#[test]
fn test_file_with_extension() {
    let file = File::from_path("/test/file.rs");

    assert_eq!(file.path, "/test/file.rs");
    assert_eq!(file.ext, Some("rs".to_string()));
}

#[test]
fn test_file_without_extension() {
    let file = File::from_path("/test/file");

    assert_eq!(file.path, "/test/file");
    assert_eq!(file.ext, None);
}

#[test]
fn test_file_with_multiple_extensions() {
    let file = File::from_path("/test/file.test.ts");

    assert_eq!(file.path, "/test/file.test.ts");
    assert_eq!(file.ext, Some("ts".to_string()));
}

#[test]
fn test_file_with_hidden_extension() {
    let file = File::from_path("/test/.gitignore");

    assert_eq!(file.path, "/test/.gitignore");
    assert_eq!(file.ext, None);
}

#[test]
fn test_file_path_from_path() {
    let file = File::from_path("src/main.rs");

    assert_eq!(file.path, "src/main.rs");
    assert_eq!(file.ext, Some("rs".to_string()));
}

#[test]
fn archive_tar_gz_classifies_by_final_suffix_only() {
    // The final suffix alone decides: `gz`, which no language lists.
    let file = File::from_path("/test/archive.tar.gz");
    assert_eq!(file.ext, Some("gz".to_string()));
    assert!(techscan::LanguageConfig::detect_language("gz").is_none());
    // In particular the `tar` part never reaches classification.
    assert_ne!(file.ext, Some("tar".to_string()));
}

#[test]
fn hidden_file_with_second_dot_has_extension() {
    let file = File::from_path("/test/.config.json");
    assert_eq!(file.ext, Some("json".to_string()));
}
