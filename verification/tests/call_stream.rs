use ziee_mcp::call_stream::{sampling_outcome, sampling_reply, sampling_result_json};
use ziee_mcp::sampling::SamplingCreateMessageResult;
use serde_json::Value;
use ziee_mcp::call_stream::{
    classify_stream_message, elicitation_outcome, elicitation_reply, elicitation_started,
    event_message, first_data_line, sampling_error_result, sampling_unsupported_reply, tool_error,
    EventBuffer, StreamMessage, ToolCallStream,
};
use ziee_mcp::elicitation::ElicitationResponse;
use ziee_mcp::json::Json;
use ziee_mcp::sampling::SamplingContent;
use ziee_mcp::sse::MAX_SSE_EVENT_BYTES;

fn j(s: &str) -> Value {
    serde_json::from_str(s).unwrap()
}

fn to_json(v: &Value) -> Json {
    match v {
        Value::Null => Json::Null,
        Value::Bool(b) => Json::Bool(*b),
        Value::Number(n) => Json::Number(n.to_string()),
        Value::String(s) => Json::Str(s.clone()),
        Value::Array(a) => Json::Array(a.iter().map(to_json).collect()),
        Value::Object(m) => Json::Object(m.iter().map(|(k, v)| (k.clone(), to_json(v))).collect()),
    }
}

fn from_json(x: &Json) -> Value {
    match x {
        Json::Null => Value::Null,
        Json::Bool(b) => Value::Bool(*b),
        Json::Number(n) => serde_json::from_str(n).unwrap(),
        Json::Str(s) => Value::String(s.clone()),
        Json::Array(a) => Value::Array(a.iter().map(from_json).collect()),
        Json::Object(m) => Value::Object(m.iter().map(|(k, v)| (k.clone(), from_json(v))).collect()),
    }
}

#[test]
fn events_are_framed_at_blank_lines_and_ids_remembered() {
    let mut s = ToolCallStream::new();
    s.push_chunk("id: 7\ndata: {\"a\":1}\n\nid: 8\nda", 30).unwrap();
    let sep = s.separator(false);
    assert_eq!(sep, "\n\n");
    assert_eq!(s.next_event(sep).as_deref(), Some("id: 7\ndata: {\"a\":1}"));
    assert_eq!(s.last_event_id.as_deref(), Some("7"));
    assert_eq!(s.next_event(sep), None, "an incomplete event stays buffered");
    s.push_chunk("ta: x\n\n", 7).unwrap();
    assert_eq!(s.next_event(sep).as_deref(), Some("id: 8\ndata: x"));
    assert_eq!(s.last_event_id.as_deref(), Some("8"));
    s.resume();
    assert_eq!(s.buffer.byte_len(), 0);
    assert_eq!(s.last_event_id.as_deref(), Some("8"), "the id survives a resume");
}

#[test]
fn crlf_framing_only_when_honoured_and_present() {
    let mut s = ToolCallStream::new();
    s.push_chunk("data: 1\r\n\r\ndata: 2\r\n\r\n", 22).unwrap();
    assert_eq!(s.separator(false), "\n\n");
    let sep = s.separator(true);
    assert_eq!(sep, "\r\n\r\n");
    assert_eq!(s.next_event(sep).as_deref(), Some("data: 1"));
    assert_eq!(s.next_event(sep).as_deref(), Some("data: 2"));
    assert_eq!(s.next_event(sep), None);
}

#[test]
fn oversized_buffer_is_refused() {
    let mut s = ToolCallStream::new();
    s.push_chunk("abc", 3).unwrap();
    let e = s.push_chunk("x", MAX_SSE_EVENT_BYTES - 2).unwrap_err();
    assert_eq!(e.status, 500);
    assert_eq!(
        e.message,
        "MCP SSE event exceeded 50MB limit \u{2014} server may be sending malformed events without \\n\\n terminator"
    );
    assert_eq!(s.buffer.byte_len(), 3, "nothing is buffered from a refused chunk");
    assert!(s.push_chunk("x", MAX_SSE_EVENT_BYTES - 3).is_ok());
}

#[test]
fn normalized_buffer_turns_breaks_into_newlines() {
    let mut b = EventBuffer::new();
    b.push_normalized("a\r\nb\rc\n");
    assert!(b.holds("a\nb\nc\n"));
    assert_eq!(b.byte_len(), 6);
    assert_eq!(b.next_block("\n").as_deref(), Some("a"));
    b.clear();
    assert_eq!(b.next_block("\n"), None);
}

#[test]
fn first_data_line_takes_the_first_data_field() {
    assert_eq!(first_data_line("event: x\r\ndata: one\ndata: two").as_deref(), Some("one"));
    assert_eq!(first_data_line("data:no-space\nid: 1"), None);
    assert_eq!(first_data_line("data: ").as_deref(), Some(""));
}

fn classify(text: &str, sampling: bool) -> StreamMessage {
    classify_stream_message(&to_json(&j(text)), sampling)
}

#[test]
fn stream_messages_are_classified() {
    match classify(r#"{"method":"notifications/progress","params":{"progress":1}}"#, false) {
        StreamMessage::Progress { params } => assert_eq!(from_json(&params), j(r#"{"progress":1}"#)),
        other => panic!("unexpected {other:?}"),
    }
    match classify(
        r#"{"jsonrpc":"2.0","id":4,"method":"elicitation/create","params":{"message":"Name?","requestedSchema":{"type":"object"}}}"#,
        false,
    ) {
        StreamMessage::Elicitation { request_id, message, requested_schema } => {
            assert_eq!(from_json(&request_id), j("4"));
            assert_eq!(message, "Name?");
            assert_eq!(from_json(&requested_schema), j(r#"{"type":"object"}"#));
        }
        other => panic!("unexpected {other:?}"),
    }
    match classify(r#"{"id":"s1","method":"sampling/createMessage","params":{"maxTokens":5}}"#, true) {
        StreamMessage::Sampling { request_id, params } => {
            assert_eq!(from_json(&request_id), j(r#""s1""#));
            assert_eq!(from_json(&params), j(r#"{"maxTokens":5}"#));
        }
        other => panic!("unexpected {other:?}"),
    }
    match classify(r#"{"id":"s1","method":"sampling/createMessage"}"#, false) {
        StreamMessage::SamplingUnsupported { request_id } => assert_eq!(from_json(&request_id), j(r#""s1""#)),
        other => panic!("unexpected {other:?}"),
    }
    match classify(r#"{"id":1,"result":{"content":[]}}"#, true) {
        StreamMessage::ToolResult(r) => assert_eq!(from_json(&r), j(r#"{"content":[]}"#)),
        other => panic!("unexpected {other:?}"),
    }
    match classify(r#"{"id":1,"error":{"code":-1}}"#, true) {
        StreamMessage::ToolError(e) => assert_eq!(from_json(&e), j(r#"{"code":-1}"#)),
        other => panic!("unexpected {other:?}"),
    }
    // An unknown method falls through to the result check.
    match classify(r#"{"method":"notifications/message","result":7}"#, true) {
        StreamMessage::ToolResult(r) => assert_eq!(from_json(&r), j("7")),
        other => panic!("unexpected {other:?}"),
    }
    assert_eq!(classify(r#"{"method":"ping"}"#, true), StreamMessage::Other);
    assert_eq!(classify("[1]", true), StreamMessage::Other);
    // Elicitation without params: empty message, null schema and id.
    match classify(r#"{"method":"elicitation/create"}"#, true) {
        StreamMessage::Elicitation { request_id, message, requested_schema } => {
            assert_eq!(request_id, Json::Null);
            assert_eq!(message, "");
            assert_eq!(requested_schema, Json::Null);
        }
        other => panic!("unexpected {other:?}"),
    }
}

#[test]
fn replies_posted_back_to_the_server() {
    let accept = elicitation_reply(Json::Number("4".into()), "accept", Some(to_json(&j(r#"{"name":"Ann"}"#))));
    assert_eq!(
        from_json(&accept),
        j(r#"{"jsonrpc":"2.0","id":4,"result":{"action":"accept","content":{"name":"Ann"}}}"#)
    );
    let accept_empty = elicitation_reply(Json::Number("4".into()), "accept", None);
    assert_eq!(
        from_json(&accept_empty),
        j(r#"{"jsonrpc":"2.0","id":4,"result":{"action":"accept","content":null}}"#)
    );
    let cancel = elicitation_reply(Json::Str("e".into()), "cancel", Some(Json::Bool(true)));
    assert_eq!(from_json(&cancel), j(r#"{"jsonrpc":"2.0","id":"e","result":{"action":"cancel"}}"#));
    let refused = sampling_unsupported_reply(Json::Number("9".into()));
    assert_eq!(
        from_json(&refused),
        j(r#"{"jsonrpc":"2.0","id":9,"error":{"code":-32601,"message":"sampling/createMessage is not supported \u2014 enable sampling on this MCP server to use this feature"}}"#)
    );
    let r = sampling_error_result("model down");
    assert_eq!(r.role, "assistant");
    assert_eq!(r.content, SamplingContent::Text { text: "Error: model down".into() });
    assert_eq!(r.model, "unknown");
    assert_eq!(r.stop_reason.as_deref(), Some("error"));
}

use ziee_mcp::call_stream::{elicitation_required_event, ElicitationStartedNotification};

#[test]
fn elicitation_event_for_the_browser() {
    let eid = uuid::Uuid::new_v4();
    let n = ElicitationStartedNotification {
        elicitation_id: eid.as_u128(),
        content_id: 1,
        message_id: None,
        message: "Pick one".into(),
        requested_schema: to_json(&j(r#"{"type":"object"}"#)),
        server: "files".into(),
    };
    let ev = from_json(&elicitation_required_event(&n));
    assert_eq!(ev["type"], "mcpElicitationRequired");
    assert_eq!(ev["elicitation_id"], eid.to_string().as_str());
    assert_eq!(ev["message_id"], Value::Null);
    assert_eq!(ev["message"], "Pick one");
    assert_eq!(ev["requested_schema"], j(r#"{"type":"object"}"#));
    assert_eq!(ev["server"], "files");
}

#[test]
fn event_blocks_are_decoded_then_classified() {
    let m = event_message("id: 1\ndata: {\"jsonrpc\":\"2.0\",\"id\":3,\"result\":{\"ok\":true}}", false);
    assert!(matches!(m, StreamMessage::ToolResult(ref r) if from_json(r) == j(r#"{"ok":true}"#)));
    assert!(matches!(event_message("id: 2\ndata: ", false), StreamMessage::Other), "a priming event asks nothing");
    assert!(matches!(event_message(": keep-alive", false), StreamMessage::Other));
    assert!(matches!(event_message("data: {not json", false), StreamMessage::Other));
    let m = event_message("data: {\"method\":\"sampling/createMessage\",\"id\":9,\"params\":{}}", false);
    assert!(matches!(m, StreamMessage::SamplingUnsupported { ref request_id } if from_json(request_id) == j("9")));
}

#[test]
fn a_tool_error_carries_the_error_text() {
    let e = tool_error(&to_json(&j(r#"{"code":-1,"message":"bad"}"#)));
    assert_eq!(e.message, r#"MCP tool error: {"code":-1,"message":"bad"}"#);
    assert_eq!(e.code, "INTERNAL_ERROR");
}

#[test]
fn elicitation_reply_is_cancel_unless_the_user_answered() {
    let id = to_json(&j("5"));
    let not_shown = from_json(&elicitation_outcome(to_json(&j("5")), false, Some(ElicitationResponse {
        action: "accept".into(),
        content: Some(to_json(&j(r#"{"a":1}"#))),
    })));
    assert_eq!(not_shown, j(r#"{"id":5,"jsonrpc":"2.0","result":{"action":"cancel"}}"#));
    let dropped = from_json(&elicitation_outcome(to_json(&j("5")), true, None));
    assert_eq!(dropped, j(r#"{"id":5,"jsonrpc":"2.0","result":{"action":"cancel"}}"#));
    let accepted = from_json(&elicitation_outcome(id, true, Some(ElicitationResponse {
        action: "accept".into(),
        content: Some(to_json(&j(r#"{"a":1}"#))),
    })));
    assert_eq!(accepted, j(r#"{"id":5,"jsonrpc":"2.0","result":{"action":"accept","content":{"a":1}}}"#));
    let declined = from_json(&elicitation_outcome(to_json(&j("5")), true, Some(ElicitationResponse {
        action: "decline".into(),
        content: Some(to_json(&j(r#"{"a":1}"#))),
    })));
    assert_eq!(declined, j(r#"{"id":5,"jsonrpc":"2.0","result":{"action":"decline"}}"#));
}

#[test]
fn the_browser_sees_only_the_capped_schema() {
    let raw = j(r#"{"type":"object","x-ziee-askuser":true}"#);
    let n = elicitation_started(1, 2, None, "Q".into(), to_json(&raw), "srv".into());
    let ev = from_json(&elicitation_required_event(&n));
    assert_eq!(ev["requested_schema"], j(r#"{"type":"object"}"#));
    let encoded = Value::String(r#"{"type":"object","properties":{}}"#.into());
    let n = elicitation_started(1, 2, Some(3), "Q".into(), to_json(&encoded), "srv".into());
    assert_eq!(from_json(&n.requested_schema), j(r#"{"type":"object","properties":{}}"#));
}

#[test]
fn sampling_replies_carry_the_handlers_result_under_the_request_id() {
    let ok = SamplingCreateMessageResult {
        role: "assistant".into(),
        content: SamplingContent::Text { text: "hi".into() },
        model: "m1".into(),
        stop_reason: Some("endTurn".into()),
    };
    let reply = from_json(&sampling_outcome(to_json(&j(r#""req-1""#)), Ok(ok)));
    assert_eq!(
        reply,
        j(r#"{"id":"req-1","jsonrpc":"2.0","result":{"content":{"text":"hi","type":"text"},"model":"m1","role":"assistant","stopReason":"endTurn"}}"#)
    );
    let failed = from_json(&sampling_outcome(to_json(&j("4")), Err("model down".into())));
    assert_eq!(
        failed,
        j(r#"{"id":4,"jsonrpc":"2.0","result":{"content":{"text":"Error: model down","type":"text"},"model":"unknown","role":"assistant","stopReason":"error"}}"#)
    );
    let image = SamplingCreateMessageResult {
        role: "assistant".into(),
        content: SamplingContent::Image { data: "AAA=".into(), mime_type: "image/png".into() },
        model: "m".into(),
        stop_reason: None,
    };
    assert_eq!(
        from_json(&sampling_result_json(&image)),
        j(r#"{"content":{"data":"AAA=","mimeType":"image/png","type":"image"},"model":"m","role":"assistant"}"#)
    );
    assert_eq!(
        from_json(&sampling_reply(to_json(&j("1")), to_json(&j("{}")))),
        j(r#"{"id":1,"jsonrpc":"2.0","result":{}}"#)
    );
}
