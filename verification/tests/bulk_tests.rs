use migrator::elasticsearch::build_bulk_body;

#[test]
fn test_bulk_body_two_documents() {
    let entries = vec![
        (Some("1".to_string()), "{\"name\":\"a\"}".to_string()),
        (Some("2".to_string()), "{\"name\":\"b\"}".to_string()),
    ];
    let (body, count) = build_bulk_body(&entries);
    assert_eq!(count, 2);
    assert_eq!(
        body,
        "{\"index\":{\"_id\":\"1\"}}\n{\"name\":\"a\"}\n{\"index\":{\"_id\":\"2\"}}\n{\"name\":\"b\"}\n"
    );
}

#[test]
fn test_bulk_body_drops_documents_without_id() {
    let entries = vec![
        (None, "{\"name\":\"a\"}".to_string()),
        (Some("7".to_string()), "{\"name\":\"b\"}".to_string()),
        (None, "{\"name\":\"c\"}".to_string()),
    ];
    let (body, count) = build_bulk_body(&entries);
    assert_eq!(count, 1);
    assert_eq!(body, "{\"index\":{\"_id\":\"7\"}}\n{\"name\":\"b\"}\n");
}

#[test]
fn test_bulk_body_empty() {
    let entries: Vec<(Option<String>, String)> = Vec::new();
    let (body, count) = build_bulk_body(&entries);
    assert_eq!(count, 0);
    assert_eq!(body, "");
}

#[test]
fn test_bulk_body_escapes_identifier() {
    let entries = vec![(
        Some("a\"b\\c\nd\u{1}".to_string()),
        "{}".to_string(),
    )];
    let (body, count) = build_bulk_body(&entries);
    assert_eq!(count, 1);
    assert_eq!(
        body,
        "{\"index\":{\"_id\":\"a\\\"b\\\\c\\nd\\u0001\"}}\n{}\n"
    );
}

#[test]
fn test_bulk_body_matches_reference_serializer() {
    // the action line must be byte-for-byte what the JSON serializer writes
    let id = "x\ty\u{8}\u{c}\r\u{1f}é";
    let entries = vec![(Some(id.to_string()), "{}".to_string())];
    let (body, _) = build_bulk_body(&entries);
    let id_json = serde_json::to_string(id).unwrap();
    let reference = format!("{{\"index\":{{\"_id\":{}}}}}\n{{}}\n", id_json);
    assert_eq!(body, reference);
}
