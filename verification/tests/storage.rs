use ziee_mcp::storage::{columns_for_update, ColumnsUpdate};
use ziee_mcp::json::Json;
use ziee_mcp::storage::{
    assemble_order, secret_column, sealed_column_value, split_entries_for_storage, EncOp, SecretColumn,
};

#[test]
fn sealed_secret_reads_back_its_ciphertext() {
    let ct: Vec<u8> = vec![0, 1, 2, 250, 255, 7];
    let sealed = sealed_column_value(&ct);
    assert_eq!(sealed, Json::Str("AAEC+v8H".into()));
    let enc = vec![("TOKEN".to_string(), sealed)];
    assert_eq!(secret_column(Some(&enc), "TOKEN"), SecretColumn::Bytes(ct));
}

#[test]
fn unreadable_secret_columns() {
    let enc = vec![
        ("BAD".to_string(), Json::Str("not base64!".into())),
        ("NUM".to_string(), Json::Number("3".into())),
    ];
    assert_eq!(secret_column(Some(&enc), "BAD"), SecretColumn::Undecodable);
    assert_eq!(secret_column(Some(&enc), "NUM"), SecretColumn::Absent);
    assert_eq!(secret_column(Some(&enc), "MISSING"), SecretColumn::Absent);
    assert_eq!(secret_column(None, "BAD"), SecretColumn::Absent);
}

#[test]
fn entries_split_into_plain_and_secret_parts() {
    let entries = vec![
        ("B".to_string(), Some("2".to_string()), false),
        ("A".to_string(), None, false),
        ("KEY".to_string(), Some("new".to_string()), true),
        ("OLD".to_string(), None, true),
        ("GONE".to_string(), None, true),
    ];
    let prior = vec![("OLD".to_string(), Json::Str("c2F2ZWQ=".into()))];
    let plan = split_entries_for_storage(&entries, Some(&prior));
    assert_eq!(
        plan.plain,
        vec![("A".to_string(), Some(String::new())), ("B".to_string(), Some("2".to_string()))]
    );
    assert_eq!(plan.secret_keys, vec!["KEY".to_string(), "OLD".to_string(), "GONE".to_string()]);
    assert_eq!(plan.encrypted.len(), 2);
    match &plan.encrypted[0] {
        (k, EncOp::Encrypt(v)) => assert_eq!((k.as_str(), v.as_str()), ("KEY", "new")),
        other => panic!("unexpected {other:?}"),
    }
    match &plan.encrypted[1] {
        (k, EncOp::Carry(v)) => {
            assert_eq!(k, "OLD");
            assert_eq!(v, &Json::Str("c2F2ZWQ=".into()));
        }
        other => panic!("unexpected {other:?}"),
    }
}

#[test]
fn stored_entries_read_back_plain_first_then_secrets_sorted() {
    let plain = vec![
        ("Z".to_string(), Json::Str("z".into())),
        ("TOKEN".to_string(), Json::Str("leak".into())),
        ("A".to_string(), Json::Number("1".into())),
    ];
    let secrets = vec!["TOKEN".to_string(), "B".to_string(), "TOKEN".to_string()];
    let (fields, secret_order) = assemble_order(Some(&plain), &secrets);
    assert_eq!(
        fields,
        vec![("A".to_string(), Some(String::new())), ("Z".to_string(), Some("z".to_string()))]
    );
    assert_eq!(secret_order, vec!["B".to_string(), "TOKEN".to_string()]);
}

#[test]
fn stored_entries_read_back_as_written() {
    let entries = vec![
        ("Z".to_string(), Some("last".to_string()), false),
        ("KEY".to_string(), Some("s3cret".to_string()), true),
        ("A".to_string(), None, false),
    ];
    let plan = split_entries_for_storage(&entries, None);
    let stored: Vec<(String, Json)> = plan
        .plain
        .iter()
        .map(|(k, v)| (k.clone(), v.clone().map(Json::Str).unwrap_or(Json::Null)))
        .collect();
    let (fields, secret_order) = assemble_order(Some(&stored), &plan.secret_keys);
    assert_eq!(
        fields,
        vec![("A".to_string(), Some(String::new())), ("Z".to_string(), Some("last".to_string()))]
    );
    assert_eq!(secret_order, vec!["KEY".to_string()]);
}

#[test]
fn an_update_without_entries_keeps_the_saved_columns() {
    let saved_plain = Json::Object(vec![("A".into(), Json::Str("1".into()))]);
    let saved_enc = Json::Object(vec![("K".into(), Json::Str("c2VjcmV0".into()))]);
    match columns_for_update(None, Some(saved_plain), saved_enc, vec!["K".into()]) {
        ColumnsUpdate::Keep { plain, encrypted, secret_keys } => {
            assert_eq!(plain, Json::Object(vec![("A".into(), Json::Str("1".into()))]));
            assert_eq!(encrypted, Json::Object(vec![("K".into(), Json::Str("c2VjcmV0".into()))]));
            assert_eq!(secret_keys, vec!["K".to_string()]);
        }
        other => panic!("expected the saved columns, got {other:?}"),
    }
    match columns_for_update(None, None, Json::Null, vec![]) {
        ColumnsUpdate::Keep { plain, .. } => assert_eq!(plain, Json::Object(vec![])),
        other => panic!("expected the saved columns, got {other:?}"),
    }
    // Entries given: split, a value-less secret carrying its saved value.
    let entries = vec![("K".to_string(), None, true), ("B".to_string(), Some("2".to_string()), false)];
    let saved_enc = Json::Object(vec![("K".into(), Json::Str("c2VjcmV0".into()))]);
    match columns_for_update(Some(&entries), None, saved_enc, vec![]) {
        ColumnsUpdate::Split(plan) => {
            assert_eq!(plan.plain, vec![("B".to_string(), Some("2".to_string()))]);
            assert_eq!(plan.secret_keys, vec!["K".to_string()]);
            assert!(matches!(&plan.encrypted[..], [(k, EncOp::Carry(Json::Str(v)))] if k == "K" && v == "c2VjcmV0"));
        }
        other => panic!("expected a split, got {other:?}"),
    }
}
