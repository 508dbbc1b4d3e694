use techscan::{
    Language, LanguageReport, LanguageReportItem, LanguageReporter, Reporter, ScannerLanguage,
    ScannerReport,
};

fn create_test_report() -> LanguageReport {
    let language = Language { name: "Rust".to_string(), exts: vec!["rs".to_string()] };

    let language_report = LanguageReportItem {
        language,
        file_count: 5,
        file_paths: vec![
            "src/main.rs".to_string(),
            "src/lib.rs".to_string(),
            "src/a.rs".to_string(),
            "src/b.rs".to_string(),
            "src/c.rs".to_string(),
        ],
    };

    LanguageReport {
        dir: "/test/path".to_string(),
        total_file_count: 5,
        languages: vec![language_report],
    }
}

fn create_test_scanner_report() -> ScannerReport {
    let language = Language { name: "Rust".to_string(), exts: vec!["rs".to_string()] };

    let language_report = ScannerLanguage {
        language,
        file_count: 5,
        file_paths: vec![
            "src/main.rs".to_string(),
            "src/lib.rs".to_string(),
            "src/a.rs".to_string(),
            "src/b.rs".to_string(),
            "src/c.rs".to_string(),
        ],
    };

    ScannerReport {
        dir: "/test/path".to_string(),
        total_file_count: 5,
        languages: vec![language_report],
    }
}

#[test]
fn language_reporter_test_validate_format_valid() {
    assert!(LanguageReporter::validate_format("table").is_ok());
}

#[test]
fn language_reporter_test_validate_format_invalid() {
    let result = LanguageReporter::validate_format("xml");
    assert!(result.is_err());

    let error_msg = result.unwrap_err().to_string();
    assert_eq!(
        error_msg,
        "Unsupported reporter format: 'xml'. Supported formats: table, json."
    );
}

#[test]
fn language_reporter_test_to_json_success() {
    let reporter = LanguageReporter::new();
    let report = create_test_report();

    let result = reporter.to_json(&report);
    assert!(result.is_ok());

    let json_string = result.unwrap();

    assert!(json_string.contains("\"dir\": \"/test/path\""));
    assert!(json_string.contains("\"total_file_count\": 5"));
    assert!(json_string.contains("\"name\": \"Rust\""));
    assert!(json_string.contains("\"file_count\": 5"));

    let parsed: serde_json::Value =
        serde_json::from_str(&json_string).expect("Generated JSON is invalid");

    assert_eq!(parsed["dir"], "/test/path");
    assert_eq!(parsed["total_file_count"], 5);
}

#[test]
fn test_percentage_excludes_unknown_files() {
    let reporter = LanguageReporter::new();

    let rust_lang = Language { name: "Rust".to_string(), exts: vec!["rs".to_string()] };
    let js_lang = Language { name: "JavaScript".to_string(), exts: vec!["js".to_string()] };

    let report = LanguageReport {
        dir: "/test/path".to_string(),
        total_file_count: 100,
        languages: vec![
            LanguageReportItem {
                language: rust_lang,
                file_count: 30,
                file_paths: (0..30).map(|i| format!("r{}.rs", i)).collect(),
            },
            LanguageReportItem {
                language: js_lang,
                file_count: 20,
                file_paths: (0..20).map(|i| format!("j{}.js", i)).collect(),
            },
        ],
    };

    let result = reporter.to_table(&report);
    assert!(result.is_ok());

    let table_output = result.unwrap();

    assert!(table_output.contains("60.0%"));
    assert!(table_output.contains("40.0%"));
}

#[test]
fn reporter_test_validate_format_valid() {
    assert!(Reporter::validate_format("table").is_ok());
}

#[test]
fn reporter_test_validate_format_invalid() {
    let result = Reporter::validate_format("xml");
    assert!(result.is_err());

    let error_msg = result.unwrap_err().to_string();
    assert_eq!(
        error_msg,
        "Unsupported reporter format: 'xml'. Supported formats: table, json."
    );
}

#[test]
fn reporter_test_to_json_success() {
    let reporter = Reporter::new();
    let report = create_test_scanner_report();

    let result = reporter.to_json(&report);
    assert!(result.is_ok());

    let json_string = result.unwrap();

    assert!(json_string.contains("\"dir\": \"/test/path\""));
    assert!(json_string.contains("\"total_file_count\": 5"));
    assert!(json_string.contains("\"name\": \"Rust\""));
    assert!(json_string.contains("\"file_count\": 5"));

    let parsed: serde_json::Value =
        serde_json::from_str(&json_string).expect("Generated JSON is invalid");

    assert_eq!(parsed["dir"], "/test/path");
    assert_eq!(parsed["total_file_count"], 5);
}

#[test]
fn to_json_matches_machine_pretty_format_exactly() {
    let reporter = LanguageReporter::new();
    let report = create_test_report();
    let json_string = reporter.to_json(&report).unwrap();

    let expected = "{\n  \"dir\": \"/test/path\",\n  \"total_file_count\": 5,\n  \"languages\": [\n    {\n      \"language\": {\n        \"name\": \"Rust\",\n        \"exts\": [\n          \"rs\"\n        ]\n      },\n      \"file_count\": 5,\n      \"file_paths\": [\n        \"src/main.rs\",\n        \"src/lib.rs\",\n        \"src/a.rs\",\n        \"src/b.rs\",\n        \"src/c.rs\"\n      ]\n    }\n  ]\n}";
    assert_eq!(json_string, expected);

    // And it parses as the values it claims to hold.
    let parsed: serde_json::Value = serde_json::from_str(&json_string).unwrap();
    assert_eq!(parsed["languages"][0]["file_count"], 5);
    assert_eq!(parsed["languages"][0]["language"]["name"], "Rust");
}

#[test]
fn zero_classified_files_render_zero_percentages() {
    // A report whose items count no files at all: every percentage is
    // 0.0% and nothing divides by zero.
    let reporter = LanguageReporter::new();
    let report = LanguageReport {
        dir: "/fixtures/empty".to_string(),
        total_file_count: 3,
        languages: vec![LanguageReportItem {
            language: Language { name: "Rust".to_string(), exts: vec!["rs".to_string()] },
            file_count: 0,
            file_paths: vec![],
        }],
    };
    let table_output = reporter.to_table(&report).unwrap();
    assert!(table_output.contains("0.0%"));

    // The scanner-report renderer guards its zero denominator the same way.
    let scanner_reporter = Reporter::new();
    let empty = ScannerReport {
        dir: "/fixtures/empty".to_string(),
        total_file_count: 0,
        languages: vec![],
    };
    let rendered = scanner_reporter.to_table(&empty).unwrap();
    assert!(rendered.contains("=== Language Statistics ==="));
}

#[test]
fn percentage_is_rounded_to_one_decimal() {
    assert_eq!(techscan::table::format_percentage(1, 3), "33.3%");
    assert_eq!(techscan::table::format_percentage(2, 3), "66.7%");
    assert_eq!(techscan::table::format_percentage(1, 6), "16.7%");
    assert_eq!(techscan::table::format_percentage(1, 1), "100.0%");
    assert_eq!(techscan::table::format_percentage(0, 7), "0.0%");
    assert_eq!(techscan::table::format_percentage(0, 0), "0.0%");
}

#[test]
fn render_rejects_unknown_format_without_output() {
    let reporter = LanguageReporter::new();
    let report = create_test_report();
    let result = reporter.render(&report, "xml");
    assert_eq!(
        result.unwrap_err(),
        "Unsupported reporter format: 'xml'. Supported formats: table, json."
    );
}
