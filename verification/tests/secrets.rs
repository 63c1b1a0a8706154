use wifi_densepose::secrets::{
    is_blank, parse_secrets, secrets_from_yaml, SecretMap, SecretsError, YamlDocument, YamlKind, YamlNode,
};

fn s(k: &str) -> YamlNode {
    YamlNode { kind: YamlKind::String(k.to_string()), debug: format!("String({k:?})") }
}

fn num(t: &str) -> YamlNode {
    YamlNode { kind: YamlKind::Number(t.to_string()), debug: format!("Number({t})") }
}

fn pairs(m: SecretMap) -> Vec<(String, String)> {
    let mut v = m.into_pairs();
    v.sort();
    v
}

#[test]
fn document_key_value_map() {
    let doc = YamlDocument::Mapping(vec![
        (s("mqtt_password"), s("hunter2")),
        (s("latitude"), num("51.5074")),
    ]);
    let m = secrets_from_yaml("secrets.yaml", "mqtt_password: hunter2\nlatitude: 51.5074\n", doc)
        .unwrap();
    assert_eq!(m.get("mqtt_password").map(String::as_str), Some("hunter2"));
    assert_eq!(m.get("latitude").map(String::as_str), Some("51.5074"));
    assert_eq!(m.get("missing"), None);
    assert_eq!(m.len(), 2);
}

#[test]
fn blank_text_gives_no_secrets() {
    for raw in ["", "  \n\t ", "\u{2003}"] {
        assert!(is_blank(raw));
        let m = secrets_from_yaml("secrets.yaml", raw, YamlDocument::NotMapping).unwrap();
        assert!(m.is_empty());
    }
    assert!(!is_blank(" a "));
}

#[test]
fn malformed_yaml_reports_only_path_and_location() {
    let err = secrets_from_yaml(
        "/cfg/secrets.yaml",
        "api_port: !!int s3cr3t_TOKEN_VALUE\n",
        YamlDocument::Malformed { line: 1, column: 11 },
    )
    .unwrap_err();
    assert_eq!(
        err,
        SecretsError::Malformed { path: "/cfg/secrets.yaml".to_string(), line: 1, column: 11 }
    );
    assert!(!format!("{err:?}").contains("s3cr3t_TOKEN_VALUE"));
}

#[test]
fn root_must_be_a_mapping() {
    let err = secrets_from_yaml("secrets.yaml", "- a\n- b\n", YamlDocument::NotMapping)
        .unwrap_err();
    assert_eq!(err, SecretsError::NotMapping { path: "secrets.yaml".to_string() });
}

#[test]
fn every_kind_of_value_becomes_a_string() {
    let doc = YamlDocument::Mapping(vec![
        (s("a"), num("1")),
        (s("flag"), YamlNode { kind: YamlKind::Bool(true), debug: "Bool(true)".into() }),
        (s("off"), YamlNode { kind: YamlKind::Bool(false), debug: "Bool(false)".into() }),
        (s("none"), YamlNode { kind: YamlKind::Null, debug: "Null".into() }),
        (
            s("list"),
            YamlNode { kind: YamlKind::Other(Some("- 1\n- 2\n".into())), debug: "Sequence".into() },
        ),
        (s("bad"), YamlNode { kind: YamlKind::Other(None), debug: "Tagged".into() }),
        (num("7"), s("seven")),
    ]);
    let m = secrets_from_yaml("secrets.yaml", "x", doc).unwrap();
    assert_eq!(
        pairs(m),
        vec![
            ("Number(7)".to_string(), "seven".to_string()),
            ("a".to_string(), "1".to_string()),
            ("bad".to_string(), "<unparseable>".to_string()),
            ("flag".to_string(), "true".to_string()),
            ("list".to_string(), "- 1\n- 2".to_string()),
            ("none".to_string(), String::new()),
            ("off".to_string(), "false".to_string()),
        ]
    );
}

#[test]
fn secret_count_is_correct() {
    let yaml = "a: 1\nb: 2\nc: 3\n";
    let secrets = parse_secrets("secrets.yaml", yaml).unwrap();
    assert_eq!(secrets.len(), 3);
}

#[test]
fn document_secret_count() {
    let doc = YamlDocument::Mapping(vec![(s("a"), num("1")), (s("b"), num("2")), (s("c"), num("3"))]);
    let m = secrets_from_yaml("secrets.yaml", "a: 1\nb: 2\nc: 3\n", doc).unwrap();
    assert_eq!(m.len(), 3);
}

#[test]
fn later_entries_override_earlier_ones() {
    let doc = YamlDocument::Mapping(vec![(s("a"), num("1")), (s("b"), num("2")), (s("a"), num("3"))]);
    let m = secrets_from_yaml("secrets.yaml", "x", doc).unwrap();
    assert_eq!(m.len(), 2);
    assert_eq!(m.get("a").map(String::as_str), Some("3"));
    assert_eq!(m.get("b").map(String::as_str), Some("2"));
}

#[test]
fn secret_map_operations() {
    let mut m = SecretMap::new();
    assert!(m.is_empty());
    m.insert("k".to_string(), "v1".to_string());
    m.insert("j".to_string(), "w".to_string());
    m.insert("k".to_string(), "v2".to_string());
    assert_eq!(m.len(), 2);
    assert_eq!(m.get("k").map(String::as_str), Some("v2"));
    assert_eq!(m.get("j").map(String::as_str), Some("w"));
    assert_eq!(m.get("z"), None);
}

#[test]
fn empty_yaml_text_gives_no_secrets() {
    assert!(parse_secrets("secrets.yaml", "").unwrap().is_empty());
    assert!(parse_secrets("secrets.yaml", "\n\n   \n").unwrap().is_empty());
}

#[test]
fn malformed_yaml_text_never_carries_the_value() {
    let err = parse_secrets("/cfg/secrets.yaml", "api_port: !!int s3cr3t_TOKEN_VALUE\n").unwrap_err();
    assert!(!format!("{err:?}").contains("s3cr3t_TOKEN_VALUE"));
    match err {
        SecretsError::Malformed { path, line, .. } => {
            assert_eq!(path, "/cfg/secrets.yaml");
            assert!(line >= 1);
        }
        other => panic!("expected Malformed, got {other:?}"),
    }
}

#[test]
fn yaml_text_counts_and_kinds() {
    let m = parse_secrets("secrets.yaml", "a: 1\nb: 2\nc: 3\n").unwrap();
    assert_eq!(m.len(), 3);
    let m = parse_secrets(
        "secrets.yaml",
        "t: true\nn: ~\nl: [1, 2]\n5: five\nf: 1.5\nq: \"quoted\"\n",
    )
    .unwrap();
    assert_eq!(
        pairs(m),
        vec![
            ("Number(5)".to_string(), "five".to_string()),
            ("f".to_string(), "1.5".to_string()),
            ("l".to_string(), "- 1\n- 2".to_string()),
            ("n".to_string(), String::new()),
            ("q".to_string(), "quoted".to_string()),
            ("t".to_string(), "true".to_string()),
        ]
    );
}

#[test]
fn yaml_root_that_is_not_a_mapping_is_refused() {
    assert_eq!(
        parse_secrets("s.yaml", "- a\n- b\n").unwrap_err(),
        SecretsError::NotMapping { path: "s.yaml".to_string() }
    );
    assert_eq!(
        parse_secrets("s.yaml", "just text\n").unwrap_err(),
        SecretsError::NotMapping { path: "s.yaml".to_string() }
    );
}

#[test]
fn parses_simple_key_value_map() {
    let yaml = "mqtt_password: hunter2\nlatitude: 51.5074\n";
    let secrets = parse_secrets("secrets.yaml", yaml).unwrap();
    assert_eq!(secrets.get("mqtt_password").map(String::as_str), Some("hunter2"));
    assert_eq!(secrets.get("latitude").map(String::as_str), Some("51.5074"));
}

#[test]
fn empty_secrets_file_returns_empty_map() {
    let secrets = parse_secrets("secrets.yaml", "").unwrap();
    assert!(secrets.is_empty());
}

#[test]
fn malformed_secrets_error_never_contains_secret_value() {
    let yaml = "api_port: !!int s3cr3t_TOKEN_VALUE\n";
    let err = parse_secrets("secrets.yaml", yaml).unwrap_err();
    let rendered = err.message();
    assert!(
        !rendered.contains("s3cr3t_TOKEN_VALUE"),
        "secret value leaked into error: {rendered}"
    );
    assert!(
        matches!(err, SecretsError::Malformed { .. }),
        "expected Malformed, got: {err:?}"
    );
}

#[test]
fn malformed_secrets_error_reports_location() {
    let yaml = "api_port: !!int notanumber\n";
    let err = parse_secrets("secrets.yaml", yaml).unwrap_err();
    let rendered = err.message();
    assert!(rendered.contains("line"), "should report a line: {rendered}");
    assert!(rendered.contains("redacted"), "should signal redaction: {rendered}");
}

#[test]
fn error_messages_are_exact() {
    let e = SecretsError::Malformed { path: "/cfg/secrets.yaml".to_string(), line: 12, column: 0 };
    assert_eq!(
        e.message(),
        "secrets.yaml parse error in /cfg/secrets.yaml (line 12, column 0): \
         malformed YAML (value content redacted)"
    );
    let e = SecretsError::Malformed { path: "s".to_string(), line: 7, column: 1050 };
    assert_eq!(
        e.message(),
        "secrets.yaml parse error in s (line 7, column 1050): malformed YAML (value content redacted)"
    );
    let e = SecretsError::NotMapping { path: "s.yaml".to_string() };
    assert_eq!(e.message(), "missing required field '<root mapping>' in s.yaml");
}

#[test]
fn blank_means_unicode_white_space_only() {
    assert!(is_blank("\u{3000}\u{a0}\t\n\u{2028}\u{85}\u{1680}\u{200a} "));
    assert!(!is_blank("\u{feff}"));
    assert!(!is_blank("\u{200b}"));
    assert!(!is_blank(" x\u{3000}"));
}
