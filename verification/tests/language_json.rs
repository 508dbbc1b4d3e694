use techscan::Language;

#[test]
fn test_serialize_single_extension() {
    let lang = Language { name: "Python".to_string(), exts: vec!["py".to_string()] };

    let json = lang.to_json();
    let expected = r#"{"name":"Python","exts":["py"]}"#;

    assert_eq!(json, expected);
}

#[test]
fn test_serialize_multiple_extension() {
    let lang = Language {
        name: "JavaScript".to_string(),
        exts: vec!["js".to_string(), "jsx".to_string()],
    };

    let json = lang.to_json();
    let expected = r#"{"name":"JavaScript","exts":["js","jsx"]}"#;

    assert_eq!(json, expected);
}

#[test]
fn test_serialize_pretty() {
    let lang = Language {
        name: "HTML".to_string(),
        exts: vec!["html".to_string(), "htm".to_string()],
    };

    let json = lang.to_json_pretty();
    let expected = "{\n  \"name\": \"HTML\",\n  \"exts\": [\n    \"html\",\n    \"htm\"\n  ]\n}";

    assert_eq!(json, expected);
}

#[test]
fn serialize_escapes_special_characters() {
    let lang = Language { name: "A\"B\\C".to_string(), exts: vec!["a\nb".to_string()] };

    let json = lang.to_json();
    let expected = "{\"name\":\"A\\\"B\\\\C\",\"exts\":[\"a\\nb\"]}";
    assert_eq!(json, expected);

    // The escaping agrees with the common machine format.
    let parsed: serde_json::Value = serde_json::from_str(&json).expect("escaped JSON is valid");
    assert_eq!(parsed["name"], "A\"B\\C");
}

#[test]
fn serialize_empty_extension_list() {
    let lang = Language { name: "X".to_string(), exts: vec![] };
    assert_eq!(lang.to_json(), r#"{"name":"X","exts":[]}"#);
    assert_eq!(lang.to_json_pretty(), "{\n  \"name\": \"X\",\n  \"exts\": []\n}");
}
