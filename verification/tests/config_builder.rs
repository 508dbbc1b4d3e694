use techscan::ConfigBuilder;

#[test]
fn test_from_cli_args_with_values() {
    let exclude = Some(vec!["*.log".to_string(), "exclude_dir".to_string()]);
    let reporter = Some("json".to_string());

    let builder = ConfigBuilder::from_cli_args(&exclude, &reporter);

    assert_eq!(builder.exclude, exclude);
    assert_eq!(builder.reporter, reporter);
}

#[test]
fn test_from_cli_args_with_none() {
    let builder = ConfigBuilder::from_cli_args(&None, &None);

    assert_eq!(builder.exclude, None);
    assert_eq!(builder.reporter, None);
}

#[test]
fn test_build_with_values() {
    let exclude = Some(vec!["*.tmp".to_string()]);
    let reporter = Some("json".to_string());

    let builder = ConfigBuilder { exclude: exclude.clone(), reporter: reporter.clone() };

    let config = builder.build();

    assert_eq!(config.exclude, exclude);
    assert_eq!(config.reporter, reporter);
}

#[test]
fn test_build_with_none() {
    let builder = ConfigBuilder { exclude: None, reporter: None };

    let config = builder.build();

    assert_eq!(config.exclude, None);
    assert_eq!(config.reporter, None);
}

#[test]
fn test_merge_file_config_with_none() {
    let builder = ConfigBuilder::from_cli_args(&None, &None);
    let result = builder.merge_file_config(&None);

    assert!(result.is_ok());

    let builder = result.unwrap();
    assert_eq!(builder.exclude, None);
    assert_eq!(builder.reporter, None);
}

#[test]
fn test_merge_file_config_with_nonexistent_file() {
    let builder = ConfigBuilder::from_cli_args(&None, &None);
    let result = builder.merge_file_config(&Some("nonexistent/config.json".to_string()));

    assert!(result.is_err());

    let error_msg = result.unwrap_err();
    assert!(error_msg.contains("Failed to load config file: nonexistent/config.json:"));
}

#[test]
fn merge_configs_fills_only_unset_fields() {
    let builder = ConfigBuilder { exclude: None, reporter: Some("table".to_string()) };
    let merged = builder.merge_configs(
        Some(vec!["*.tmp".to_string()]),
        Some("json".to_string()),
    );
    // The unset field takes the file's value; the set one keeps priority.
    assert_eq!(merged.exclude, Some(vec!["*.tmp".to_string()]));
    assert_eq!(merged.reporter, Some("table".to_string()));

    let builder = ConfigBuilder { exclude: None, reporter: None };
    let merged = builder.merge_configs(None, Some("json".to_string()));
    assert_eq!(merged.exclude, None);
    assert_eq!(merged.reporter, Some("json".to_string()));
}
