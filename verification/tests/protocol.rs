use ziee_mcp::headers::{expand_header_template, parse_header_map, validate_header_entries, HeaderEntry};
use ziee_mcp::sse::{extract_response_by_id, json_id_eq, sse_event_data, sse_event_id, sse_event_retry_ms, JsonRpcId};
use ziee_mcp::stream::{
    get_stream_headers, is_event_stream, is_supported_protocol_version, mcp_post_headers,
    route_unsolicited_event, should_reinitialize, should_retry_with_oauth, StandaloneStream, StreamAction,
    UnsolicitedAction,
};

fn env(pairs: &[(&str, Option<&str>)]) -> Vec<(String, Option<String>)> {
    pairs.iter().map(|(k, v)| (k.to_string(), v.map(|s| s.to_string()))).collect()
}

fn hp(pairs: &[(&str, &str)]) -> Vec<(String, String)> {
    pairs.iter().map(|(a, b)| (a.to_string(), b.to_string())).collect()
}

#[test]
fn sse_fields_of_an_event_block() {
    assert_eq!(sse_event_id("id: 1\ndata: x\nid:  2 \n").as_deref(), Some("2"), "the last id wins");
    assert_eq!(sse_event_id("data: x"), None);
    assert_eq!(sse_event_retry_ms("retry: abc\nretry: 2500\nretry: 10"), Some(2500));
    assert_eq!(sse_event_retry_ms("data: 1"), None);
    assert_eq!(sse_event_data("event: m\ndata: {\"a\":\ndata:  1}\n"), "{\"a\":\n 1}");
    assert_eq!(sse_event_data("data: a\ndata:b\nid: 1"), "a\nb");
    assert_eq!(sse_event_data("id: 3"), "");
}

#[test]
fn responses_are_found_by_id() {
    let body = "data: {\"method\":\"notifications/progress\"}\r\n\r\ndata: {\"id\":\"7\",\"result\":1}\r\n\r\ndata: {\"id\":8,\"result\":2}\n\n";
    assert_eq!(extract_response_by_id(body, 7).unwrap(), "{\"id\":\"7\",\"result\":1}");
    assert_eq!(extract_response_by_id(body, 8).unwrap(), "{\"id\":8,\"result\":2}");
    let e = extract_response_by_id(body, 9).unwrap_err();
    assert_eq!(e.message, "SSE stream ended without a response for request id=9");
    assert!(json_id_eq(&JsonRpcId::Number(Some(-4)), -4));
    assert!(json_id_eq(&JsonRpcId::Str("12".into()), 12));
    assert!(!json_id_eq(&JsonRpcId::Str("x".into()), 12));
    assert!(!json_id_eq(&JsonRpcId::Other, 0));
}

#[test]
fn request_headers() {
    assert_eq!(
        mcp_post_headers(Some("sid"), Some("2025-11-25"), Some("tok")),
        hp(&[
            ("Accept", "application/json, text/event-stream"),
            ("mcp-session-id", "sid"),
            ("MCP-Protocol-Version", "2025-11-25"),
            ("Authorization", "Bearer tok"),
        ])
    );
    assert_eq!(mcp_post_headers(None, None, None), hp(&[("Accept", "application/json, text/event-stream")]));
    assert_eq!(
        get_stream_headers(None, Some("2025-06-18"), None, Some("ev-3")),
        hp(&[("Accept", "text/event-stream"), ("MCP-Protocol-Version", "2025-06-18"), ("Last-Event-Id", "ev-3")])
    );
}

#[test]
fn retry_rules() {
    assert!(should_reinitialize("tools/call", "MCP server returned HTTP 404 Not Found: gone"));
    assert!(!should_reinitialize("initialize", "HTTP 404"));
    assert!(!should_reinitialize("tools/call", "HTTP 500"));
    assert!(should_retry_with_oauth(401, true, false));
    assert!(!should_retry_with_oauth(401, true, true));
    assert!(!should_retry_with_oauth(401, false, false));
    assert!(!should_retry_with_oauth(403, true, false));
    assert!(is_event_stream("text/event-stream; charset=utf-8"));
    assert!(!is_event_stream("application/json"));
    assert!(is_supported_protocol_version("2024-11-05"));
    assert!(!is_supported_protocol_version("2025-01-01"));
}

#[test]
fn standalone_stream_reconnect_budget() {
    let mut s = StandaloneStream::new();
    assert_eq!(s.on_status(405, true), StreamAction::Exit);
    assert_eq!(s.on_status(401, true), StreamAction::RefreshOAuth);
    assert_eq!(s.on_status(401, false), StreamAction::Exit);
    assert_eq!(s.on_status(500, false), StreamAction::Reconnect { attempt: 0 });
    assert_eq!(s.on_send_error(), StreamAction::Reconnect { attempt: 1 });
    assert_eq!(s.on_stream_end(), StreamAction::Exit, "the budget of two is spent");
    assert_eq!(s.on_status(200, false), StreamAction::Drain);
    s.on_event("   ");
    assert_eq!(s.reconnect_attempt, 2, "a blank event does not count");
    s.on_event("id: 42\nretry: 5000\ndata: {}");
    assert_eq!(s.reconnect_attempt, 0, "a delivered event restores the budget");
    assert_eq!(s.last_event_id.as_deref(), Some("42"));
    assert_eq!(s.backoff_initial_ms, 5000);
    assert_eq!(s.on_stream_end(), StreamAction::Reconnect { attempt: 0 });
}

#[test]
fn unsolicited_events_are_routed() {
    assert_eq!(
        route_unsolicited_event("data: {\"id\":1,\"method\":\"elicitation/create\"}"),
        UnsolicitedAction::Elicitation("{\"id\":1,\"method\":\"elicitation/create\"}".into())
    );
    assert_eq!(
        route_unsolicited_event("data: {\"id\":\"a\",\"method\":\"sampling/createMessage\"}"),
        UnsolicitedAction::RejectUnsupported("{\"id\":\"a\",\"method\":\"sampling/createMessage\"}".into())
    );
    assert_eq!(route_unsolicited_event("data: {\"method\":\"elicitation/create\"}"), UnsolicitedAction::Handled);
    assert_eq!(route_unsolicited_event("data: not json"), UnsolicitedAction::Handled);
    assert_eq!(route_unsolicited_event(": keep-alive"), UnsolicitedAction::Handled);
}

#[test]
fn header_templates_expand_known_variables() {
    let e = env(&[("TOKEN", Some("abc")), ("NUM", None)]);
    assert_eq!(expand_header_template("Bearer ${TOKEN}", &e), "Bearer abc");
    assert_eq!(expand_header_template("${MISSING}-${NUM}", &e), "${MISSING}-${NUM}");
    assert_eq!(expand_header_template("$5 ${open", &e), "$5 ${open");
    // Text around references is kept as it is, non-ASCII characters too.
    assert_eq!(expand_header_template("é${TOKEN}é", &e), "éabcé");
    assert_eq!(expand_header_template("naïve — ok", &e), "naïve — ok");
}

#[test]
fn header_maps_report_every_refused_header() {
    let h = env(&[
        ("X-Token", Some("  ${TOKEN}\n")),
        ("bad name", Some("v")),
        ("Host", Some("evil")),
        ("X-Num", None),
        ("X-Ctl", Some("a\u{1}b")),
    ]);
    let e = env(&[("TOKEN", Some("abc"))]);
    let (map, errors) = parse_header_map(Some(&h), Some(&e));
    assert_eq!(map.len(), 1);
    assert_eq!(map.get("x-token").unwrap(), "abc");
    let reasons: Vec<(String, String)> = errors.iter().map(|x| (x.name.clone(), x.reason.clone())).collect();
    assert_eq!(
        reasons,
        hp(&[
            ("bad name", "invalid header name"),
            ("Host", "\"host\" is a reserved HTTP header and cannot be set via custom headers"),
            ("X-Num", "header value must be a string"),
            ("X-Ctl", "header value contains invalid characters (an interior newline or non-ASCII character?)"),
        ])
    );
    let (empty, none) = parse_header_map(None, None);
    assert!(empty.is_empty() && none.is_empty());
}

fn entry(k: &str, v: Option<&str>) -> HeaderEntry {
    HeaderEntry { key: k.into(), value: v.map(|s| s.to_string()), is_secret: false }
}

#[test]
fn header_entries_are_checked_literally_first_bad_key_reported() {
    assert!(validate_header_entries(&vec![entry("X-A", Some("${NOT_EXPANDED}")), entry("X-B", None)]).is_ok());
    let e = validate_header_entries(&vec![
        entry("x-z", Some("a\nb")),
        entry("Connection", Some("close")),
        entry("X-A", Some("ok")),
    ])
    .unwrap_err();
    assert_eq!((e.status, e.code.as_str()), (400, "INVALID_HEADER"));
    assert_eq!(
        e.message,
        "Invalid value for header \"Connection\": \"connection\" is a reserved HTTP header and cannot be set via custom headers"
    );
    // A later valid value of the same key replaces a bad one.
    assert!(validate_header_entries(&vec![entry("X-A", Some("a\nb")), entry("X-A", Some("fine"))]).is_ok());
}

#[test]
fn standalone_stream_gives_up_after_its_reconnects() {
    let mut s = StandaloneStream::new();
    assert_eq!(s.on_status(200, false), StreamAction::Drain);
    s.on_event("id: e1\nretry: 2500\ndata: {}");
    // The first open ends; then every GET fails: a send error, a 500.
    assert_eq!(s.on_stream_end(), StreamAction::Reconnect { attempt: 0 });
    assert_eq!(s.on_send_error(), StreamAction::Reconnect { attempt: 1 });
    assert_eq!(s.on_status(500, false), StreamAction::Exit);
    assert_eq!(s.last_event_id.as_deref(), Some("e1"), "the resume point is kept");
    assert_eq!(s.backoff_initial_ms, 2500, "the server's retry delay is kept");
    assert_eq!(s.reconnect_attempt, 2);
}
