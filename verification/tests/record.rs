use serde_json::Value;
use ziee_mcp::error::McpError;
use ziee_mcp::json::Json;
use ziee_mcp::record::{sanitize_value, MAX_ARGS_BYTES, MAX_RESULT_BYTES};
use ziee_mcp::tool_calls::{
    build_record, classify_error_status, content_kinds, is_secret_key, CallOutcome,
    McpCallContext, McpToolCallSource, McpToolCallStatus,
};

/// A JSON value from its text.
fn j(s: &str) -> Value {
    serde_json::from_str(s).unwrap()
}


fn to_json(v: &Value) -> Json {
    match v {
        Value::Null => Json::Null,
        Value::Bool(b) => Json::Bool(*b),
        Value::Number(n) => Json::Number(n.to_string()),
        Value::String(s) => Json::Str(s.clone()),
        Value::Array(a) => Json::Array(a.iter().map(to_json).collect()),
        Value::Object(m) => Json::Object(m.iter().map(|(k, v)| (k.clone(), to_json(v))).collect()),
    }
}

fn from_json(j: &Json) -> Value {
    match j {
        Json::Null => Value::Null,
        Json::Bool(b) => Value::Bool(*b),
        Json::Number(n) => serde_json::from_str(n).unwrap(),
        Json::Str(s) => Value::String(s.clone()),
        Json::Array(a) => Value::Array(a.iter().map(from_json).collect()),
        Json::Object(m) => Value::Object(m.iter().map(|(k, v)| (k.clone(), from_json(v))).collect()),
    }
}

/// Arguments as stored: redacted, then capped on their serialized size.
fn cap_arguments(args: &Value) -> Value {
    from_json(&ziee_mcp::record::cap_arguments(&to_json(args)))
}

/// A tool result as stored, with its kinds and pre-strip size.
fn capture_result(content: &[Value], structured: Option<Value>) -> (Value, Vec<String>, i64) {
    let mut full = j(r#"{ "isError": false }"#);
    full["content"] = Value::Array(content.to_vec());
    if let Some(s) = structured {
        full["structuredContent"] = s;
    }
    let c = ziee_mcp::tool_calls::capture_result(&to_json(&full));
    (from_json(&c.result_json), c.content_kinds, c.result_bytes)
}

/// The library's form of a JSON text.
fn jj(s: &str) -> Json {
    to_json(&j(s))
}

#[test]
fn cap_arguments_passes_small_and_truncates_large() {
    let small = j(r#"{ "q": "hello" }"#);
    assert_eq!(cap_arguments(&small), small);

    let mut big = j("{}");
    big["q"] = Value::String("x".repeat(MAX_ARGS_BYTES + 100));
    let capped = cap_arguments(&big);
    assert_eq!(capped["_truncated"], j(r#"true"#));
    assert!(capped["_bytes"].as_u64().unwrap() as usize > MAX_ARGS_BYTES);
}

#[test]
fn capture_scrubs_ziee_host_paths_keeps_workflow_handles() {
    let (result_json, _, _) = capture_result(
        &[j(r#"{
            "type": "resource_link",
            "uri": "ziee:///Users/x/.ziee/sandboxes/c/out.csv",
            "name": "out.csv"
        }"#)],
        Some(j(r#"{
            "uri": "ziee:///Users/x/.ziee/sandboxes/c/out.csv",
            "wf": "ziee://workflow-runs/r1/outputs/x"
        }"#)),
    );
    let serialized = serde_json::to_string(&result_json).unwrap();
    assert!(!serialized.contains("ziee:///"), "host path leaked: {serialized}");
    assert!(serialized.contains("ziee://workflow-runs/"), "workflow handle dropped");
    assert_eq!(result_json["content"][0]["uri"], j(r#""""#));
}

#[test]
fn capture_strips_base64_and_records_kinds_and_presize() {
    let (result_json, kinds, result_bytes) = capture_result(
        &[
            j(r#"{ "type": "text", "text": "hi" }"#),
            j(r#"{ "type": "image", "mimeType": "image/png", "data": "AAAABBBB" }"#),
            j(r#"{ "type": "text", "text": "again" }"#),
        ],
        None,
    );
    assert_eq!(kinds, vec!["text".to_string(), "image".to_string()]);
    assert!(result_bytes > 0);
    let img = &result_json["content"][1];
    assert_eq!(img["data"]["_stripped"], j(r#"true"#));
    assert_eq!(img["data"]["_bytes"], j(r#"8"#));
    assert_eq!(result_json["content"][0]["text"], j(r#""hi""#));
}

#[test]
fn capture_caps_oversized_result() {
    let big = "x".repeat(MAX_RESULT_BYTES + 100);
    let (result_json, _, result_bytes) = {
        let mut block = j(r#"{ "type": "text" }"#);
        block["text"] = Value::String(big);
        capture_result(&[block], None)
    };
    assert_eq!(result_json["_truncated"], j(r#"true"#));
    assert!(result_bytes as usize > MAX_RESULT_BYTES, "pre-strip size recorded");
}

#[test]
fn sanitize_redacts_secrets_and_preserves_short_nonbinary_data() {
    let v = j(r#"{
        "authorization": "Bearer abc123",
        "nested": { "api_key": "k", "ok": 1 },
        "structuredContent": { "data": "OK" }
    }"#);
    let out = from_json(&sanitize_value(&to_json(&v)));
    assert_eq!(out["authorization"], j(r#""[redacted]""#));
    assert_eq!(out["nested"]["api_key"], j(r#""[redacted]""#));
    assert_eq!(out["nested"]["ok"], j(r#"1"#), "non-secret values pass through");
    assert_eq!(out["structuredContent"]["data"], j(r#""OK""#), "data outside a binary content block is NOT stripped");
}

#[test]
fn sanitize_strips_nested_embedded_resource_blob() {
    let v = j(r#"{
        "type": "resource",
        "resource": {
            "uri": "file:///x",
            "mimeType": "application/octet-stream",
            "blob": "QUJDREVGR0g=",
            "text": "kept"
        }
    }"#);
    let out = from_json(&sanitize_value(&to_json(&v)));
    assert_eq!(out["resource"]["blob"]["_stripped"], j(r#"true"#));
    assert_eq!(out["resource"]["uri"], j(r#""file:///x""#), "uri preserved");
    assert_eq!(out["resource"]["text"], j(r#""kept""#), "text preserved");
}

#[test]
fn sanitize_counts_bytes_not_chars_and_redacts_any_case() {
    let v = j(r#"{ "type": "file", "data": "é", "Password": { "deep": 1 }, "TOKEN": [1] }"#);
    let out = from_json(&sanitize_value(&to_json(&v)));
    assert_eq!(out["data"], j(r#"{ "_bytes": 2, "_stripped": true }"#));
    assert_eq!(out["Password"], j(r#""[redacted]""#));
    assert_eq!(out["TOKEN"], j(r#""[redacted]""#));
    assert!(is_secret_key("X-Api-Key"));
    assert!(!is_secret_key("keys"));
}

fn ctx_with_owner() -> McpCallContext {
    McpCallContext {
        user_id: Some(uuid::Uuid::new_v4().as_u128()),
        conversation_id: None,
        branch_id: None,
        message_id: None,
        tool_use_id: None,
        source: McpToolCallSource::default(),
        server_name: "mock".into(),
        is_built_in: false,
        workflow_run_id: None,
        review_classification: None,
    }
}

fn finished(is_error: bool) -> CallOutcome {
    CallOutcome::Finished { is_error, result: jj(r#"{ "content": [{ "type": "text", "text": "ok" }], "isError": false }"#) }
}

#[test]
fn build_record_maps_status_from_outcome() {
    let ctx = ctx_with_owner();
    let completed = build_record(0, &ctx, "t", &jj("{}"), finished(false), 0, 5).unwrap();
    assert_eq!(completed.status, McpToolCallStatus::Completed);
    assert!(!completed.is_error);
    assert_eq!(completed.duration_ms, Some(5));

    let tool_error = build_record(0, &ctx, "t", &jj("{}"), finished(true), 0, 1).unwrap();
    assert_eq!(tool_error.status, McpToolCallStatus::Failed);
    assert!(tool_error.is_error);

    let timed_out = CallOutcome::Failed(McpError::internal_error("request timed out".into()));
    let rec = build_record(0, &ctx, "t", &jj("{}"), timed_out, 0, 1).unwrap();
    assert_eq!(rec.status, McpToolCallStatus::Timeout);
    assert!(rec.error_message.is_some());

    let boom = CallOutcome::Failed(McpError::internal_error("boom".into()));
    let rec = build_record(0, &ctx, "t", &jj("{}"), boom, 0, 1).unwrap();
    assert_eq!(rec.status, McpToolCallStatus::Failed);
}

#[test]
fn build_record_carries_workflow_run_id() {
    let mut ctx = ctx_with_owner();
    let run = 0x1234_5678u128;
    ctx.workflow_run_id = Some(run);
    let rec = build_record(0, &ctx, "t", &jj("{}"), finished(false), 0, 1).unwrap();
    assert_eq!(rec.workflow_run_id, Some(run));
}

#[test]
fn build_record_carries_is_built_in_for_builtin_servers() {
    let mut ctx = ctx_with_owner();
    ctx.is_built_in = true;
    ctx.server_name = "files".into();
    let rec = build_record(0, &ctx, "read_file", &jj(r#"{"file_id":"abc"}"#), finished(false), 0, 1)
        .expect("an owner-stamped session must record");
    assert!(rec.is_built_in, "built-in server tool call must set is_built_in=true");
    assert_eq!(rec.tool_name, "read_file");
    assert_eq!(rec.server_name, "files");

    let ext = ctx_with_owner();
    let rec2 = build_record(0, &ext, "do_thing", &jj("{}"), finished(false), 0, 1).unwrap();
    assert!(!rec2.is_built_in, "external server tool call must set is_built_in=false");
}

#[test]
fn build_record_skips_unstamped_session() {
    let mut ctx = ctx_with_owner();
    ctx.user_id = None;
    let rec = build_record(0, &ctx, "t", &jj("{}"), finished(false), 0, 1);
    assert!(rec.is_none());
}

#[test]
fn build_record_timestamps_and_error_text() {
    let ctx = ctx_with_owner();
    let rec = build_record(
        7,
        &ctx,
        "t",
        &jj("{}"),
        CallOutcome::Failed(McpError::new(504, "GATEWAY_TIMEOUT", "slow".into())),
        1_000,
        250,
    )
    .unwrap();
    assert_eq!(rec.server_id, Some(7));
    assert_eq!(rec.status, McpToolCallStatus::Timeout, "a timeout code classifies as a timeout");
    assert_eq!(rec.error_message.as_deref(), Some("slow"));
    assert_eq!(rec.started_at_ms, 1_000);
    assert_eq!(rec.finished_at_ms, Some(1_250));
    assert!(rec.result_json.is_none());
    assert!(rec.content_kinds.is_empty());
    assert_eq!(rec.result_bytes, 0);
}

#[test]
fn classify_error_status_reads_code_and_message() {
    assert_eq!(
        classify_error_status(&McpError::bad_request("X", "Operation TIMED OUT".into())),
        McpToolCallStatus::Timeout
    );
    assert_eq!(classify_error_status(&McpError::bad_request("X", "nope".into())), McpToolCallStatus::Failed);
}

#[test]
fn enum_as_str_round_trips() {
    assert_eq!(McpToolCallStatus::Completed.as_str(), "completed");
    assert_eq!(McpToolCallStatus::Timeout.as_str(), "timeout");
    assert_eq!(McpToolCallSource::Rest.as_str(), "rest");
    assert_eq!(McpToolCallSource::default().as_str(), "chat");
}

#[test]
fn script_source_as_str() {
    assert_eq!(McpToolCallSource::Script.as_str(), "script");
}

#[test]
fn build_record_stores_redacted_capped_arguments_and_the_captured_result() {
    let ctx = ctx_with_owner();
    let rec = build_record(1, &ctx, "t", &jj(r#"{ "api_key": "s3cret", "q": "x" }"#), finished(false), 0, 1)
        .unwrap();
    assert_eq!(from_json(&rec.arguments_json), j(r#"{ "api_key": "[redacted]", "q": "x" }"#));
    assert_eq!(rec.content_kinds, vec!["text".to_string()]);
    let stored = from_json(rec.result_json.as_ref().unwrap());
    assert_eq!(stored["content"][0]["text"], j(r#""ok""#));
    let text = r#"{"content":[{"text":"ok","type":"text"}],"isError":false}"#;
    assert_eq!(rec.result_bytes, text.len() as i64);

    let mut big = j("{}");
    big["q"] = Value::String("y".repeat(MAX_ARGS_BYTES));
    let rec = build_record(1, &ctx, "t", &to_json(&big), finished(false), 0, 1).unwrap();
    assert_eq!(from_json(&rec.arguments_json)["_truncated"], j("true"));
}
