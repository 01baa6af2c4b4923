use serde_json::Value;
use ziee_mcp::json::Json;
use ziee_mcp::resource_link::{
    configured_fetch_headers, content_type_mime, finalize_links, is_trusted_resource_emitter,
    is_ziee_host_path, parse_resource_link_block, plan_link, scrub_ziee_in_value, LinkAction,
    PersistedArtifact, ResourceLink,
};

/// A JSON value from its text.
fn j(s: &str) -> Value {
    serde_json::from_str(s).unwrap()
}


fn to_json(v: &Value) -> Json {
    match v {
        Value::Null => Json::Null,
        Value::Bool(b) => Json::Bool(*b),
        Value::Number(n) => Json::Number(n.to_string()),
        Value::String(s) => Json::Str(s.clone()),
        Value::Array(a) => Json::Array(a.iter().map(to_json).collect()),
        Value::Object(m) => Json::Object(m.iter().map(|(k, v)| (k.clone(), to_json(v))).collect()),
    }
}

fn from_json(j: &Json) -> Value {
    match j {
        Json::Null => Value::Null,
        Json::Bool(b) => Value::Bool(*b),
        Json::Number(n) => serde_json::from_str(n).unwrap(),
        Json::Str(s) => Value::String(s.clone()),
        Json::Array(a) => Value::Array(a.iter().map(from_json).collect()),
        Json::Object(m) => Value::Object(m.iter().map(|(k, v)| (k.clone(), from_json(v))).collect()),
    }
}

// The ids of the first-party servers, as the server module assigns them.
const CODE_SANDBOX_ID: u128 = 0x0000_0000_0000_4000_8000_0000_0000_0c0d;
const FILES_MCP_ID: u128 = 0x0000_0000_0000_4000_8000_0000_0000_f11e;
const LIT_SEARCH_ID: u128 = 0x0000_0000_0000_4000_8000_0000_0000_1175;

fn builtins() -> Vec<u128> {
    vec![CODE_SANDBOX_ID, FILES_MCP_ID, LIT_SEARCH_ID]
}

#[test]
fn trusted_emitter_gate_accepts_builtins_rejects_others() {
    assert!(is_trusted_resource_emitter(CODE_SANDBOX_ID, &builtins()));
    assert!(is_trusted_resource_emitter(FILES_MCP_ID, &builtins()));
    assert!(is_trusted_resource_emitter(LIT_SEARCH_ID, &builtins()));
    assert!(!is_trusted_resource_emitter(0, &builtins()));
    assert!(!is_trusted_resource_emitter(0xdead_beef, &builtins()));
}

#[test]
fn parse_resource_link_block_maps_fields() {
    let v = j(r#"{
        "type": "resource_link",
        "uri": "ziee:///tmp/ws/out.csv",
        "name": "out.csv",
        "mimeType": "text/csv",
        "size": 12,
        "is_saved": false
    }"#);
    let link = parse_resource_link_block(&to_json(&v)).expect("parsed");
    assert_eq!(link.uri, "ziee:///tmp/ws/out.csv");
    assert_eq!(link.name.as_deref(), Some("out.csv"));
    assert_eq!(link.mime_type.as_deref(), Some("text/csv"));
    assert_eq!(link.size, Some(12));
    assert_eq!(link.is_saved, Some(false));
    assert!(parse_resource_link_block(&to_json(&j(r#"{ "name": "x" }"#))).is_none());
}

#[test]
fn parse_resource_link_block_reads_file_ids() {
    let id = uuid::Uuid::new_v4();
    let v = j(&format!(r#"{{ "uri": "/api/files/x", "file_id": "{}", "version_id": "nope", "version": 3 }}"#, id));
    let link = parse_resource_link_block(&to_json(&v)).unwrap();
    assert_eq!(link.file_id, Some(id.as_u128()));
    assert_eq!(link.version_id, None);
    assert_eq!(link.version, Some(3));
    assert!(parse_resource_link_block(&to_json(&j(r#""ziee:///x""#))).is_none());
}

#[test]
fn is_ziee_host_path_distinguishes_dialects() {
    assert!(is_ziee_host_path("ziee:///var/lib/ziee/sandboxes/c/out.csv"));
    assert!(is_ziee_host_path("ziee:///etc/passwd"));
    assert!(!is_ziee_host_path("ziee://workflow-runs/abc/outputs/x.json"));
    assert!(!is_ziee_host_path("/api/files/1"));
    assert!(!is_ziee_host_path("https://ok/y"));
    assert!(!is_ziee_host_path("ziee://"));
}

#[test]
fn scrub_ziee_in_value_blanks_host_paths_keeps_workflow_handles() {
    let v = j(r#"{
        "type": "resource_link",
        "uri": "ziee:///var/lib/ziee/sandboxes/c/out.csv",
        "name": "out.csv",
        "nested": { "u": "ziee:///etc/passwd", "ok": "/api/files/1" },
        "list": ["ziee:///x", "https://ok/y", 7],
        "workflow_handle": "ziee://workflow-runs/r1/outputs/out"
    }"#);
    let mut j = to_json(&v);
    scrub_ziee_in_value(&mut j);
    let v = from_json(&j);
    assert_eq!(v["uri"], "");
    assert_eq!(v["nested"]["u"], "");
    assert_eq!(v["nested"]["ok"], "/api/files/1");
    assert_eq!(v["list"][0], "");
    assert_eq!(v["list"][1], "https://ok/y");
    assert_eq!(v["list"][2], 7);
    assert_eq!(v["workflow_handle"], "ziee://workflow-runs/r1/outputs/out");
    assert!(!serde_json::to_string(&v).unwrap().contains("ziee:///"));
}

fn link(uri: &str, name: Option<&str>, is_saved: Option<bool>) -> ResourceLink {
    ResourceLink {
        uri: uri.into(),
        name: name.map(|n| n.to_string()),
        mime_type: None,
        size: None,
        is_saved,
        file_id: None,
        version_id: None,
        version: None,
    }
}

#[test]
fn plan_link_decides_per_link() {
    assert_eq!(
        plan_link(&link("/api/files/1", Some("a.txt"), Some(true)), false, false),
        LinkAction::Reference { name: "a.txt".into(), uri: "/api/files/1".into() }
    );
    assert_eq!(plan_link(&link("ziee:///etc/x", None, Some(true)), true, true), LinkAction::Skip);
    assert_eq!(
        plan_link(&link("ziee:///tmp/out.csv", None, None), true, false),
        LinkAction::IngestHostPath { path: "/tmp/out.csv".into(), display_name: "file".into() }
    );
    assert_eq!(plan_link(&link("ziee:///tmp/out.csv", None, None), false, true), LinkAction::Skip);
    assert_eq!(plan_link(&link("ziee://workflow-runs/r", None, None), true, true), LinkAction::Skip);
    assert_eq!(
        plan_link(&link("https://x/y", Some("y"), Some(false)), false, true),
        LinkAction::Fetch { display_name: "y".into() }
    );
    assert_eq!(plan_link(&link("https://x/y", Some("y"), None), false, false), LinkAction::Skip);
}

#[test]
fn content_type_mime_drops_parameters() {
    assert_eq!(content_type_mime(Some(" text/csv ; charset=utf-8")).as_deref(), Some("text/csv"));
    assert_eq!(content_type_mime(Some("image/png")).as_deref(), Some("image/png"));
    assert_eq!(content_type_mime(None), None);
}

#[test]
fn finalize_links_stamps_saved_files_and_blanks_host_paths() {
    let id = uuid::Uuid::new_v4();
    let mut links = vec![
        link("ziee:///tmp/a.csv", Some("a.csv"), None),
        link("ziee:///tmp/b.csv", Some("b.csv"), None),
        link("https://x/c", None, None),
    ];
    let saved = vec![PersistedArtifact {
        link_idx: 0,
        file_id: id.as_u128(),
        version: 1,
        version_id: 9,
        filename: "a.csv".into(),
        mime_type: None,
        size: 3,
    }];
    finalize_links(&mut links, &saved);
    assert_eq!(links[0].uri, format!("/api/files/{}", id));
    assert_eq!(links[0].file_id, Some(id.as_u128()));
    assert_eq!(links[0].version, Some(1));
    assert_eq!(links[0].version_id, Some(9));
    assert_eq!(links[1].uri, "", "an unsaved host path never leaves");
    assert_eq!(links[2].uri, "https://x/c");
}

#[test]
fn fetch_headers_keep_valid_string_members() {
    let h: Vec<(String, Option<String>)> = vec![
        ("X-Key".into(), Some("abc".into())),
        ("bad name".into(), Some("v".into())),
        ("X-Num".into(), None),
        ("X-Bad-Value".into(), Some("a\nb".into())),
    ];
    let map = configured_fetch_headers(Some(&h));
    assert_eq!(map.len(), 1);
    assert_eq!(map.get("x-key").unwrap(), "abc");
    assert!(configured_fetch_headers(None).is_empty());
}

use ziee_mcp::resource_link::{artifact_mime, extension_of, processing_mime};

#[test]
fn extensions_are_the_lowercased_text_after_the_last_dot() {
    assert_eq!(extension_of("Report.Final.CSV"), "csv");
    assert_eq!(extension_of(".bashrc"), "bashrc");
    assert_eq!(extension_of("Makefile"), "makefile");
    assert_eq!(extension_of("trailing."), "");
}

#[test]
fn artifact_mime_prefers_the_download_type_then_the_extension() {
    assert_eq!(artifact_mime("a.csv", Some("text/plain".into())).as_deref(), Some("text/plain"));
    assert_eq!(artifact_mime("a.PNG", None).as_deref(), Some("image/png"));
    assert_eq!(artifact_mime("a.csv", None).as_deref(), Some("text/csv"));
    assert_eq!(artifact_mime("a.unknownext", None), None);
    assert_eq!(processing_mime(&None), "application/octet-stream");
    assert_eq!(processing_mime(&Some("image/png".into())), "image/png");
}
