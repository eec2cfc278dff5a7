use i18n::document::resolve;
use i18n::error::I18nError;
use i18n::formats::{candidate_paths, parse_content};

#[test]
fn parses_json_document() {
    let doc = parse_content("{\"greeting\": \"Hello\"}", "json").unwrap();
    assert_eq!(resolve(&doc, "greeting").as_deref(), Some("Hello"));
    assert_eq!(resolve(&doc, "absent"), None);
}

#[test]
fn parses_toml_document() {
    let doc = parse_content("greeting = \"Hallo\"\n[nested]\nkey = \"value\"\n", "toml").unwrap();
    assert_eq!(resolve(&doc, "greeting").as_deref(), Some("Hallo"));
    assert_eq!(resolve(&doc, "nested.key").as_deref(), Some("value"));
}

#[test]
fn parses_yaml_document() {
    let doc = parse_content("greeting: Bonjour\nnested:\n  key: value\n", "yaml").unwrap();
    assert_eq!(resolve(&doc, "greeting").as_deref(), Some("Bonjour"));
    assert_eq!(resolve(&doc, "nested.key").as_deref(), Some("value"));
    let doc2 = parse_content("greeting: Hej\n", "yml").unwrap();
    assert_eq!(resolve(&doc2, "greeting").as_deref(), Some("Hej"));
}

#[test]
fn malformed_content_is_a_parse_error() {
    assert!(matches!(parse_content("{not json", "json"), Err(I18nError::ParseError { .. })));
    assert!(matches!(parse_content("= broken", "toml"), Err(I18nError::ParseError { .. })));
    assert!(matches!(parse_content("[1, 2", "yaml"), Err(I18nError::ParseError { .. })));
}

#[test]
fn top_level_must_be_a_table() {
    assert!(matches!(parse_content("[1, 2, 3]", "json"), Err(I18nError::ParseError { .. })));
    assert!(matches!(parse_content("- a\n- b\n", "yaml"), Err(I18nError::ParseError { .. })));
}

#[test]
fn unknown_extension_is_refused() {
    match parse_content("anything", "txt") {
        Err(I18nError::UnsupportedExtension { extension }) => assert_eq!(extension, "txt"),
        other => panic!("expected UnsupportedExtension, got {:?}", other.is_ok()),
    }
}

#[test]
fn non_string_leaves_are_misses() {
    let doc = parse_content("{\"n\": 3, \"b\": true, \"a\": [1], \"s\": \"ok\"}", "json").unwrap();
    assert_eq!(resolve(&doc, "n"), None);
    assert_eq!(resolve(&doc, "b"), None);
    assert_eq!(resolve(&doc, "a"), None);
    assert_eq!(resolve(&doc, "s").as_deref(), Some("ok"));
}

#[test]
fn candidate_paths_probe_in_fixed_order() {
    let c = candidate_paths("dir/en-US/common");
    let views: Vec<&str> = c.iter().map(|s| s.as_str()).collect();
    assert_eq!(
        views,
        vec![
            "dir/en-US/common",
            "dir/en-US/common.json",
            "dir/en-US/common.toml",
            "dir/en-US/common.yaml",
            "dir/en-US/common.yml",
        ]
    );
}
