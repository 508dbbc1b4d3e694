use techscan::{File, LanguageScanner};

fn scanner() -> LanguageScanner {
    LanguageScanner::new(".", None).expect("current directory exists")
}

#[test]
fn aggregation_groups_counts_and_orders() {
    let s = scanner();
    let files = vec![
        File::from_path("/p/a.js"),
        File::from_path("/p/b.js"),
        File::from_path("/p/a.rs"),
        File::from_path("/p/b.rs"),
        File::from_path("/p/a.py"),
    ];
    let report = s.analyze(files);

    assert_eq!(report.total_file_count, 5);
    let names: Vec<&str> = report.languages.iter().map(|l| l.language.name.as_str()).collect();
    // Counts descending; the two-file tie resolves in registry order:
    // JavaScript is listed before Rust.
    assert_eq!(names, vec!["JavaScript", "Rust", "Python"]);
    assert_eq!(report.languages[0].file_count, 2);
    assert_eq!(report.languages[1].file_count, 2);
    assert_eq!(report.languages[2].file_count, 1);
    assert_eq!(report.languages[0].file_paths, vec!["/p/a.js", "/p/b.js"]);
}

#[test]
fn aggregation_is_deterministic_across_runs() {
    let s = scanner();
    let mk = || {
        vec![
            File::from_path("/p/a.rb"),
            File::from_path("/p/b.go"),
            File::from_path("/p/c.rb"),
            File::from_path("/p/d.go"),
        ]
    };
    let r1 = s.analyze(mk());
    let r2 = s.analyze(mk());
    let reporter = techscan::LanguageReporter::new();
    assert_eq!(reporter.to_json(&r1).unwrap(), reporter.to_json(&r2).unwrap());
}

#[test]
fn files_without_extension_count_toward_total_only() {
    let s = scanner();
    let files = vec![
        File::from_path("/test/.gitignore"),
        File::from_path("/test/file"),
        File::from_path("/test/main.rs"),
    ];
    let report = s.analyze(files);

    assert_eq!(report.total_file_count, 3);
    assert_eq!(report.languages.len(), 1);
    assert_eq!(report.languages[0].language.name, "Rust");
    assert_eq!(report.languages[0].file_count, 1);
    for item in &report.languages {
        for p in &item.file_paths {
            assert_ne!(p, "/test/.gitignore");
            assert_ne!(p, "/test/file");
        }
    }
}

#[test]
fn classified_counts_never_exceed_total() {
    let s = scanner();
    let files = vec![
        File::from_path("/p/a.rs"),
        File::from_path("/p/archive.tar.gz"),
        File::from_path("/p/README"),
        File::from_path("/p/b.css"),
    ];
    let report = s.analyze(files);
    let sum: u64 = report.languages.iter().map(|l| l.file_count).sum();
    assert!(sum <= report.total_file_count);
    assert_eq!(sum, 2);
    assert_eq!(report.total_file_count, 4);
}

#[test]
fn unknown_final_suffix_classifies_to_nothing() {
    let s = scanner();
    let report = s.analyze(vec![File::from_path("/p/archive.tar.gz")]);
    assert_eq!(report.total_file_count, 1);
    assert!(report.languages.is_empty());
}

#[test]
fn extension_lookup_is_case_insensitive() {
    let s = scanner();
    let report = s.analyze(vec![File::from_path("/p/MAIN.RS")]);
    assert_eq!(report.languages.len(), 1);
    assert_eq!(report.languages[0].language.name, "Rust");
}

#[test]
fn scanner_analyze_matches_language_scanner_analyze() {
    let ls = scanner();
    let sc = techscan::Scanner::new(".".to_string(), None).expect("current directory exists");
    let mk = || vec![File::from_path("/p/a.rs"), File::from_path("/p/b.sh")];
    let r1 = ls.analyze(mk());
    let r2 = sc.analyze(mk());
    assert_eq!(r1.total_file_count, r2.total_file_count);
    assert_eq!(r1.languages.len(), r2.languages.len());
    for (a, b) in r1.languages.iter().zip(r2.languages.iter()) {
        assert_eq!(a.language.name, b.language.name);
        assert_eq!(a.file_count, b.file_count);
        assert_eq!(a.file_paths, b.file_paths);
    }
}
