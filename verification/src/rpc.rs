//! JSON-RPC messages of the MCP client: the requests it sends (a generic
//! request, `tools/call`, `initialize`), and how it reads a reply body and
//! the reply itself.
use crate::error::McpError;
use crate::json::{self, jview, member, members_view, Json, JsonV};
use crate::call_stream::{first_data_line, first_prefixed, get, get_str, or_null};
use crate::stream;
use crate::text;
use vstd::prelude::*;
use vstd::string::StringExecFns;

verus! {

/// A JSON number holding `n`.
pub open spec fn number(n: int) -> JsonV {
    JsonV::Number(text::signed_decimal(n))
}

/// A JSON-RPC request: `{"id", "jsonrpc": "2.0", "method", "params"}`.
pub open spec fn request_view(id: i64, method: Seq<char>, params: JsonV) -> JsonV {
    JsonV::Object(
        seq![
            ("id"@, number(id as int)),
            ("jsonrpc"@, JsonV::Str("2.0"@)),
            ("method"@, JsonV::Str(method)),
            ("params"@, params),
        ],
    )
}

/// The JSON-RPC request `method` with `params` under `id`.
pub fn rpc_request(id: i64, method: &str, params: Json) -> (r: Json)
    ensures
        jview(r) == request_view(id, method@, jview(params)),
{
    let mut m: Vec<(String, Json)> = Vec::new();
    m.push((String::from_str("id"), Json::Number(text::signed_decimal_string(id))));
    m.push((String::from_str("jsonrpc"), Json::Str(String::from_str("2.0"))));
    m.push((String::from_str("method"), Json::Str(String::from_str(method))));
    m.push((String::from_str("params"), params));
    proof {
        json::lemma_members_view(m@);
        assert(members_view(m@) =~= seq![
            ("id"@, number(id as int)),
            ("jsonrpc"@, JsonV::Str("2.0"@)),
            ("method"@, JsonV::Str(method@)),
            ("params"@, jview(params)),
        ]);
    }
    Json::Object(m)
}

/// The params of a `tools/call`: the tool's name and arguments, opting in
/// to progress notices under the request id.
pub open spec fn tool_call_params(id: i64, name: Seq<char>, arguments: JsonV) -> JsonV {
    JsonV::Object(
        seq![
            ("_meta"@, JsonV::Object(seq![("progressToken"@, number(id as int))])),
            ("arguments"@, arguments),
            ("name"@, JsonV::Str(name)),
        ],
    )
}

/// The `tools/call` request for tool `name` with `arguments` under `id`.
pub fn tool_call_request(id: i64, name: &str, arguments: Json) -> (r: Json)
    ensures
        jview(r) == request_view(id, "tools/call"@, tool_call_params(id, name@, jview(arguments))),
{
    let mut meta: Vec<(String, Json)> = Vec::new();
    meta.push((String::from_str("progressToken"), Json::Number(text::signed_decimal_string(id))));
    proof {
        json::lemma_members_view(meta@);
    }
    let ghost metav = members_view(meta@);
    let mut p: Vec<(String, Json)> = Vec::new();
    p.push((String::from_str("_meta"), Json::Object(meta)));
    p.push((String::from_str("arguments"), arguments));
    p.push((String::from_str("name"), Json::Str(String::from_str(name))));
    proof {
        json::lemma_members_view(p@);
        assert(metav =~= seq![("progressToken"@, number(id as int))]);
        assert(members_view(p@) =~= seq![
            ("_meta"@, JsonV::Object(metav)),
            ("arguments"@, jview(arguments)),
            ("name"@, JsonV::Str(name@)),
        ]);
    }
    rpc_request(id, "tools/call", Json::Object(p))
}

/// The version this client reports itself as.
pub open spec fn client_info(version: Seq<char>) -> JsonV {
    JsonV::Object(seq![("name"@, JsonV::Str("ziee"@)), ("version"@, JsonV::Str(version))])
}

/// The params of `initialize`: the client's capabilities (elicitation
/// always, sampling when a sampling handler is attached), its name and
/// version, and the protocol version it implements.
pub open spec fn initialize_params_view(sampling: bool, version: Seq<char>) -> JsonV {
    let caps = if sampling {
        JsonV::Object(
            seq![
                ("elicitation"@, JsonV::Object(Seq::empty())),
                ("sampling"@, JsonV::Object(Seq::empty())),
            ],
        )
    } else {
        JsonV::Object(seq![("elicitation"@, JsonV::Object(Seq::empty()))])
    };
    JsonV::Object(
        seq![
            ("capabilities"@, caps),
            ("clientInfo"@, client_info(version)),
            ("protocolVersion"@, JsonV::Str(stream::MCP_PROTOCOL_VERSION@)),
        ],
    )
}

/// The params of the `initialize` request (see [`initialize_params_view`]);
/// `client_version` is the application's version.
pub fn initialize_params(sampling: bool, client_version: &str) -> (r: Json)
    ensures
        jview(r) == initialize_params_view(sampling, client_version@),
{
    let mut caps: Vec<(String, Json)> = Vec::new();
    caps.push((String::from_str("elicitation"), Json::Object(Vec::new())));
    if sampling {
        caps.push((String::from_str("sampling"), Json::Object(Vec::new())));
    }
    let mut info: Vec<(String, Json)> = Vec::new();
    info.push((String::from_str("name"), Json::Str(String::from_str("ziee"))));
    info.push((String::from_str("version"), Json::Str(String::from_str(client_version))));
    proof {
        json::lemma_members_view(caps@);
        json::lemma_members_view(info@);
        json::lemma_members_view(Seq::<(String, Json)>::empty());
        assert(members_view(Seq::<(String, Json)>::empty()) =~= Seq::<(Seq<char>, JsonV)>::empty());
    }
    let ghost capsv = members_view(caps@);
    let ghost infov = members_view(info@);
    let mut m: Vec<(String, Json)> = Vec::new();
    m.push((String::from_str("capabilities"), Json::Object(caps)));
    m.push((String::from_str("clientInfo"), Json::Object(info)));
    m.push(
        (String::from_str("protocolVersion"), Json::Str(String::from_str(stream::MCP_PROTOCOL_VERSION))),
    );
    proof {
        json::lemma_members_view(m@);
        assert(infov =~= seq![("name"@, JsonV::Str("ziee"@)), ("version"@, JsonV::Str(client_version@))]);
        if sampling {
            assert(capsv =~= seq![
                ("elicitation"@, JsonV::Object(Seq::empty())),
                ("sampling"@, JsonV::Object(Seq::empty())),
            ]);
        } else {
            assert(capsv =~= seq![("elicitation"@, JsonV::Object(Seq::empty()))]);
        }
        assert(members_view(m@) =~= seq![
            ("capabilities"@, JsonV::Object(capsv)),
            ("clientInfo"@, JsonV::Object(infov)),
            ("protocolVersion"@, JsonV::Str(stream::MCP_PROTOCOL_VERSION@)),
        ]);
    }
    Json::Object(m)
}

/// The protocol version an `initialize` result settles on: its string
/// `protocolVersion`, which must be one this client supports (see
/// [`stream::negotiate_protocol_version`]).
pub fn negotiated_protocol_version(init_result: &Json) -> (r: Result<String, McpError>)
    ensures
        match get_str(jview(*init_result), "protocolVersion"@) {
            None => r is Err,
            Some(v) => match r {
                Ok(s) => stream::supported_versions().contains(v) && s@ == v,
                Err(_) => !stream::supported_versions().contains(v),
            },
        },
        r matches Err(e) ==> e.status == crate::error::STATUS_INTERNAL,
{
    let v: Option<&String> = match init_result {
        Json::Object(m) => json::get_str(m, "protocolVersion"),
        _ => None,
    };
    match v {
        Some(s) => stream::negotiate_protocol_version(Some(s.as_str())),
        None => stream::negotiate_protocol_version(None),
    }
}

/// What a JSON-RPC reply carries.
#[derive(Debug, PartialEq, Eq)]
pub enum RpcReply {
    /// Its `error` member (reported as `MCP error: {error}`).
    Error(Json),
    /// Its `result` member.
    Result(Json),
    /// Neither.
    NoResult,
}

/// The view of a reply: `(kind, value)` with kind 0 error, 1 result, 2
/// neither.
pub open spec fn reply_view(r: RpcReply) -> (int, JsonV) {
    match r {
        RpcReply::Error(e) => (0, jview(e)),
        RpcReply::Result(x) => (1, jview(x)),
        RpcReply::NoResult => (2, JsonV::Null),
    }
}

/// How a reply is read: an `error` member wins over a `result` member.
pub open spec fn reply_of(v: JsonV) -> (int, JsonV) {
    match get(v, "error"@) {
        Some(e) => (0, e),
        None => match get(v, "result"@) {
            Some(x) => (1, x),
            None => (2, JsonV::Null),
        },
    }
}

/// Reads a JSON-RPC reply (see [`reply_of`]).
pub fn read_reply(reply: &Json) -> (r: RpcReply)
    ensures
        reply_view(r) == reply_of(jview(*reply)),
{
    match reply {
        Json::Object(m) => match json::get_member(m, "error") {
            Some(e) => RpcReply::Error(json::copy(e)),
            None => match json::get_member(m, "result") {
                Some(x) => RpcReply::Result(json::copy(x)),
                None => RpcReply::NoResult,
            },
        },
        _ => RpcReply::NoResult,
    }
}

/// The text of a plain (non-streamed) tool-call reply body to parse: the
/// trimmed body, or — when it holds `data: ` — the rest of its first line
/// starting with `data: `; refused when that line is missing.
pub open spec fn plain_payload(body: Seq<char>) -> Option<Seq<char>> {
    let t = text::trim(body);
    if text::contains(t, "data: "@) {
        first_prefixed(text::lines(t), "data: "@)
    } else {
        Some(t)
    }
}

/// The JSON text of a plain tool-call reply body (see [`plain_payload`]);
/// `Err` "No data found in SSE response" when it holds `data: ` without a
/// line starting with it.
pub fn plain_body_payload(body: &str) -> (r: Result<String, McpError>)
    ensures
        match plain_payload(body@) {
            Some(p) => r matches Ok(s) && s@ == p,
            None => r matches Err(e) && e.status == crate::error::STATUS_INTERNAL && e.message@
                == "No data found in SSE response"@,
        },
{
    let trimmed = crate::headers::trim_string(body);
    if text::str_contains(trimmed.as_str(), "data: ") {
        match first_data_line(trimmed.as_str()) {
            Some(d) => Ok(d),
            None => Err(McpError::internal_error(String::from_str("No data found in SSE response"))),
        }
    } else {
        Ok(trimmed)
    }
}

/// The message of a request answered with a non-success status:
/// `status_line` (the status as the HTTP stack prints it) and the body's
/// first 200 characters.
pub fn http_status_message(status_line: &str, body: &str) -> (r: String)
    ensures
        r@ == "MCP server returned HTTP "@ + status_line@ + ": "@ + body@.take(
            if body@.len() < 200 {
                body@.len() as int
            } else {
                200
            },
        ),
{
    let v = text::chars_of(body);
    let k: usize = if v.len() < 200 {
        v.len()
    } else {
        200
    };
    let head = text::string_of_range(&v, 0, k);
    assert(v@.subrange(0, k as int) =~= body@.take(k as int));
    let r = text::concat3("MCP server returned HTTP ", status_line, ": ");
    text::concat2(r.as_str(), head.as_str())
}

/// A client that is not connected refuses every request (`500 Not
/// connected`).
pub fn require_connected(connected: bool) -> (r: Result<(), McpError>)
    ensures
        r is Ok <==> connected,
        r matches Err(e) ==> e.status == crate::error::STATUS_INTERNAL && e.code@ == "INTERNAL_ERROR"@
            && e.message@ == "Not connected"@,
{
    if !connected {
        return Err(McpError::internal_error(String::from_str("Not connected")));
    }
    Ok(())
}

} // verus!
