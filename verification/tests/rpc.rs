use ziee_mcp::rpc::require_connected;
use serde_json::Value;
use ziee_mcp::json::Json;
use ziee_mcp::rpc::{
    http_status_message, initialize_params, negotiated_protocol_version, plain_body_payload,
    read_reply, rpc_request, tool_call_request, RpcReply,
};

fn j(s: &str) -> Value {
    serde_json::from_str(s).unwrap()
}

fn to_json(v: &Value) -> Json {
    match v {
        Value::Null => Json::Null,
        Value::Bool(b) => Json::Bool(*b),
        Value::Number(n) => Json::Number(n.to_string()),
        Value::String(s) => Json::Str(s.clone()),
        Value::Array(a) => Json::Array(a.iter().map(to_json).collect()),
        Value::Object(m) => Json::Object(m.iter().map(|(k, v)| (k.clone(), to_json(v))).collect()),
    }
}

fn from_json(x: &Json) -> Value {
    match x {
        Json::Null => Value::Null,
        Json::Bool(b) => Value::Bool(*b),
        Json::Number(n) => serde_json::from_str(n).unwrap(),
        Json::Str(s) => Value::String(s.clone()),
        Json::Array(a) => Value::Array(a.iter().map(from_json).collect()),
        Json::Object(m) => Value::Object(m.iter().map(|(k, v)| (k.clone(), from_json(v))).collect()),
    }
}

#[test]
fn requests_carry_id_method_and_params() {
    let r = rpc_request(-3, "tools/list", to_json(&j(r#"{"cursor":"c"}"#)));
    assert_eq!(from_json(&r), j(r#"{"jsonrpc":"2.0","id":-3,"method":"tools/list","params":{"cursor":"c"}}"#));
    let t = tool_call_request(12, "search", to_json(&j(r#"{"q":"x"}"#)));
    assert_eq!(
        from_json(&t),
        j(r#"{"jsonrpc":"2.0","id":12,"method":"tools/call","params":{"name":"search","arguments":{"q":"x"},"_meta":{"progressToken":12}}}"#)
    );
    // Keys are in the order a serde_json map iterates them.
    match &t {
        Json::Object(m) => {
            let keys: Vec<&str> = m.iter().map(|(k, _)| k.as_str()).collect();
            assert_eq!(keys, vec!["id", "jsonrpc", "method", "params"]);
        }
        _ => panic!("not an object"),
    }
}

#[test]
fn initialize_advertises_capabilities() {
    assert_eq!(
        from_json(&initialize_params(false, "1.2.3")),
        j(r#"{"protocolVersion":"2025-11-25","capabilities":{"elicitation":{}},"clientInfo":{"name":"ziee","version":"1.2.3"}}"#)
    );
    assert_eq!(
        from_json(&initialize_params(true, "1.2.3"))["capabilities"],
        j(r#"{"sampling":{},"elicitation":{}}"#)
    );
}

#[test]
fn negotiated_version_must_be_supported() {
    let ok = negotiated_protocol_version(&to_json(&j(r#"{"protocolVersion":"2025-06-18"}"#))).unwrap();
    assert_eq!(ok, "2025-06-18");
    let e = negotiated_protocol_version(&to_json(&j(r#"{"protocolVersion":"1999-01-01"}"#))).unwrap_err();
    assert_eq!(
        e.message,
        "MCP server negotiated unsupported protocol version \"1999-01-01\"; this client supports [\"2025-11-25\", \"2025-06-18\", \"2025-03-26\", \"2024-11-05\", \"2024-10-07\"]"
    );
    let e = negotiated_protocol_version(&to_json(&j(r#"{"protocolVersion":7}"#))).unwrap_err();
    assert_eq!(e.message, "MCP initialize response is missing `protocolVersion`");
}

#[test]
fn replies_are_read_error_first() {
    assert_eq!(
        read_reply(&to_json(&j(r#"{"error":{"code":1},"result":2}"#))),
        RpcReply::Error(to_json(&j(r#"{"code":1}"#)))
    );
    assert_eq!(read_reply(&to_json(&j(r#"{"result":null}"#))), RpcReply::Result(Json::Null));
    assert_eq!(read_reply(&to_json(&j(r#"{"id":1}"#))), RpcReply::NoResult);
}

#[test]
fn plain_bodies_yield_their_json_text() {
    assert_eq!(plain_body_payload("  {\"result\":1}\n").unwrap(), "{\"result\":1}");
    assert_eq!(plain_body_payload("event: message\ndata: {\"a\":1}\n\n").unwrap(), "{\"a\":1}");
    let e = plain_body_payload("x data: y").unwrap_err();
    assert_eq!(e.message, "No data found in SSE response");
}

#[test]
fn status_messages_keep_the_first_200_characters() {
    let body = "é".repeat(250);
    let m = http_status_message("502 Bad Gateway", &body);
    assert_eq!(m, format!("MCP server returned HTTP 502 Bad Gateway: {}", "é".repeat(200)));
    assert_eq!(http_status_message("404 Not Found", "nope"), "MCP server returned HTTP 404 Not Found: nope");
}

#[test]
fn a_client_that_is_not_connected_refuses() {
    assert!(require_connected(true).is_ok());
    let e = require_connected(false).unwrap_err();
    assert_eq!((e.status, e.message.as_str()), (500, "Not connected"));
}
