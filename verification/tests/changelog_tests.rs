use cardsync::{SyncError, is_json_name, parse_id_change_log, str_ends_with, str_eq};

#[test]
fn changelog_decodes_json_object() {
    let body = r#"{"100": 200, "abc": 5}"#;
    let mut entries = parse_id_change_log(body).unwrap();
    entries.sort();
    assert_eq!(
        entries,
        vec![("100".to_string(), 200i64), ("abc".to_string(), 5i64)]
    );
}

#[test]
fn changelog_decodes_empty_object() {
    let entries = parse_id_change_log("{}").unwrap();
    assert!(entries.is_empty());
}

#[test]
fn changelog_rejects_malformed_body() {
    assert_eq!(
        parse_id_change_log("not json"),
        Err(SyncError::DecodeError)
    );
    assert_eq!(
        parse_id_change_log(r#"{"100": "two hundred"}"#),
        Err(SyncError::DecodeError)
    );
    assert_eq!(parse_id_change_log(r#"[1, 2]"#), Err(SyncError::DecodeError));
}

#[test]
fn json_names_select_snapshot_entries() {
    assert!(is_json_name("cards.json"));
    assert!(is_json_name(".json"));
    assert!(!is_json_name("cards.txt"));
    assert!(!is_json_name("json"));
    assert!(!is_json_name(""));
}

#[test]
fn suffix_and_equality_helpers() {
    assert!(str_ends_with("abcdef", "def"));
    assert!(str_ends_with("abc", ""));
    assert!(!str_ends_with("c", "abc"));
    assert!(str_eq("同调", "同调"));
    assert!(!str_eq("同调", "同調"));
    assert!(!str_eq("a", "ab"));
}
