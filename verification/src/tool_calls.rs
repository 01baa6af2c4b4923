//! The tool-call history: statuses and sources of a recorded call, the
//! secret-key denylist, the classification of a failed call, and the
//! record built from a finished call.
use crate::error::McpError;
use crate::json::{self, jview, items_view, members_view, Json, JsonV};
use crate::json_codec::{json_len, serialized_len};
use crate::record::{capped_value, sanitized, stored_arguments, MAX_RESULT_BYTES};
use crate::resource_link::scrubbed;
use crate::text;
use vstd::prelude::*;
use vstd::string::StringExecFns;

verus! {

/// Terminal status of a recorded tool call.
#[derive(Debug, Clone, Copy, PartialEq, Eq, Structural)]
pub enum McpToolCallStatus {
    Completed,
    Failed,
    Timeout,
    /// Reserved for an explicit mid-call cancellation.
    Cancelled,
}

/// The stored name of a status.
pub open spec fn status_name(s: McpToolCallStatus) -> Seq<char> {
    match s {
        McpToolCallStatus::Completed => "completed"@,
        McpToolCallStatus::Failed => "failed"@,
        McpToolCallStatus::Timeout => "timeout"@,
        McpToolCallStatus::Cancelled => "cancelled"@,
    }
}

impl McpToolCallStatus {
    /// The stored name.
    pub fn as_str(&self) -> (r: &'static str)
        ensures
            r@ == status_name(*self),
    {
        match self {
            McpToolCallStatus::Completed => "completed",
            McpToolCallStatus::Failed => "failed",
            McpToolCallStatus::Timeout => "timeout",
            McpToolCallStatus::Cancelled => "cancelled",
        }
    }
}

/// How a tool call was triggered.
#[derive(Debug, Clone, Copy, PartialEq, Eq, Structural)]
pub enum McpToolCallSource {
    /// A model-driven call in a chat.
    Chat,
    /// A manual REST call.
    Rest,
    /// An `always`-mode tool run before the model call.
    Always,
    /// An approved call run on the approval-resume path.
    Approval,
    /// A call made by a sampling session.
    Sampling,
    /// A call made by a workflow step.
    Workflow,
    /// A call made by a script's injected tool functions.
    Script,
}

/// The stored name of a source.
pub open spec fn source_name(s: McpToolCallSource) -> Seq<char> {
    match s {
        McpToolCallSource::Chat => "chat"@,
        McpToolCallSource::Rest => "rest"@,
        McpToolCallSource::Always => "always"@,
        McpToolCallSource::Approval => "approval"@,
        McpToolCallSource::Sampling => "sampling"@,
        McpToolCallSource::Workflow => "workflow"@,
        McpToolCallSource::Script => "script"@,
    }
}

impl McpToolCallSource {
    /// The stored name.
    pub fn as_str(&self) -> (r: &'static str)
        ensures
            r@ == source_name(*self),
    {
        match self {
            McpToolCallSource::Chat => "chat",
            McpToolCallSource::Rest => "rest",
            McpToolCallSource::Always => "always",
            McpToolCallSource::Approval => "approval",
            McpToolCallSource::Sampling => "sampling",
            McpToolCallSource::Workflow => "workflow",
            McpToolCallSource::Script => "script",
        }
    }
}

impl Default for McpToolCallSource {
    /// The default source of a call: `Chat`.
    fn default() -> (r: Self)
        ensures
            r == McpToolCallSource::Chat,
    {
        McpToolCallSource::Chat
    }
}

/// Keys whose values are redacted from stored arguments and results
/// (compared case-insensitively).
pub open spec fn secret_keys() -> Seq<Seq<char>> {
    seq![
        "authorization"@,
        "auth"@,
        "bearer"@,
        "password"@,
        "passwd"@,
        "secret"@,
        "token"@,
        "access_token"@,
        "refresh_token"@,
        "api_key"@,
        "apikey"@,
        "api-key"@,
        "x-api-key"@,
        "client_secret"@,
        "private_key"@,
    ]
}

/// Whether `key`, ASCII-lower-cased, is on the secret-key denylist.
pub open spec fn secret_key(key: Seq<char>) -> bool {
    secret_keys().contains(text::lower(key))
}

/// Whether a key's value must be redacted before storage.
pub fn is_secret_key(key: &str) -> (r: bool)
    ensures
        r == secret_key(key@),
{
    let k = text::to_ascii_lower(key);
    let l: Vec<&str> = vec![
        "authorization",
        "auth",
        "bearer",
        "password",
        "passwd",
        "secret",
        "token",
        "access_token",
        "refresh_token",
        "api_key",
        "apikey",
        "api-key",
        "x-api-key",
        "client_secret",
        "private_key",
    ];
    assert(l@.map_values(|x: &str| x@) =~= secret_keys());
    let ghost lv = l@.map_values(|x: &str| x@);
    let mut i: usize = 0;
    while i < l.len()
        invariant
            i <= l@.len(),
            lv == l@.map_values(|x: &str| x@),
            lv == secret_keys(),
            k@ == text::lower(key@),
            forall|j: int| 0 <= j < i ==> lv[j] != k@,
        decreases l@.len() - i,
    {
        if text::str_eq(k.as_str(), l[i]) {
            assert(lv[i as int] == k@);
            return true;
        }
        i = i + 1;
    }
    false
}

/// Whether a failed call timed out: its error code or its message,
/// ASCII-lower-cased, mentions a timeout.
pub open spec fn timed_out(code: Seq<char>, message: Seq<char>) -> bool {
    text::contains(text::lower(code), "timeout"@) || text::contains(text::lower(message), "timed out"@)
        || text::contains(text::lower(message), "timeout"@)
}

/// The status of a call that failed with `err`: `Timeout` when the error
/// is a timeout, `Failed` otherwise.
pub fn classify_error_status(err: &McpError) -> (r: McpToolCallStatus)
    ensures
        r == if timed_out(err.code@, err.message@) {
            McpToolCallStatus::Timeout
        } else {
            McpToolCallStatus::Failed
        },
{
    let code = text::to_ascii_lower(err.error_code());
    let msg = text::to_ascii_lower(err.message.as_str());
    if text::str_contains(code.as_str(), "timeout") || text::str_contains(msg.as_str(), "timed out")
        || text::str_contains(msg.as_str(), "timeout") {
        McpToolCallStatus::Timeout
    } else {
        McpToolCallStatus::Failed
    }
}

/// The distinct content-block types of a result, in first-seen order
/// (blocks without a string `type` are skipped).
pub open spec fn distinct_kinds(types: Seq<Option<Seq<char>>>) -> Seq<Seq<char>>
    decreases types.len(),
{
    if types.len() == 0 {
        Seq::empty()
    } else {
        let prev = distinct_kinds(types.drop_last());
        match types.last() {
            Some(t) => if prev.contains(t) {
                prev
            } else {
                prev.push(t)
            },
            None => prev,
        }
    }
}

/// The distinct content-block types, from each block's `type` (when a
/// string), in first-seen order.
pub fn content_kinds(block_types: &Vec<Option<String>>) -> (r: Vec<String>)
    ensures
        r@.map_values(|s: String| s@) == distinct_kinds(
            block_types@.map_values(|o: Option<String>| crate::auth::opt_view(o)),
        ),
{
    let ghost tv = block_types@.map_values(|o: Option<String>| crate::auth::opt_view(o));
    let mut out: Vec<String> = Vec::new();
    let mut j: usize = 0;
    while j < block_types.len()
        invariant
            j <= block_types@.len(),
            tv == block_types@.map_values(|o: Option<String>| crate::auth::opt_view(o)),
            out@.map_values(|s: String| s@) == distinct_kinds(tv.take(j as int)),
        decreases block_types@.len() - j,
    {
        assert(tv.take(j + 1).drop_last() =~= tv.take(j as int));
        assert(tv.take(j + 1).last() == crate::auth::opt_view(block_types@[j as int]));
        let ghost before = out@.map_values(|s: String| s@);
        if let Some(t) = &block_types[j] {
            let mut seen = false;
            let mut i: usize = 0;
            while i < out.len()
                invariant
                    i <= out@.len(),
                    before == out@.map_values(|s: String| s@),
                    !seen ==> forall|k: int| 0 <= k < i ==> before[k] != t@,
                    seen ==> before.contains(t@),
                decreases out@.len() - i,
            {
                if out[i] == *t {
                    assert(before[i as int] == t@);
                    seen = true;
                }
                i = i + 1;
            }
            if !seen {
                out.push(t.clone());
                assert(out@.map_values(|s: String| s@) =~= before.push(t@));
            }
        }
        assert(out@.map_values(|s: String| s@) =~= distinct_kinds(tv.take(j + 1)));
        j = j + 1;
    }
    assert(tv.take(j as int) =~= tv);
    out
}

/// Who, where and how a session's tool calls are recorded; a session
/// without an owner records nothing.
#[derive(Debug, Clone)]
pub struct McpCallContext {
    pub user_id: Option<u128>,
    pub conversation_id: Option<u128>,
    pub branch_id: Option<u128>,
    pub message_id: Option<u128>,
    pub tool_use_id: Option<String>,
    pub source: McpToolCallSource,
    pub server_name: String,
    pub is_built_in: bool,
    pub workflow_run_id: Option<u128>,
    pub review_classification: Option<String>,
}

/// The stored form of a successful call's result: the result sanitized,
/// scrubbed and capped, its content kinds and its size before stripping.
#[derive(Debug)]
pub struct ResultCapture {
    pub result_json: Json,
    pub content_kinds: Vec<String>,
    pub result_bytes: i64,
}

/// The `type` of each block of a result's `content` array, `None` for a
/// block without a string `type`.
pub open spec fn block_types(result: JsonV) -> Seq<Option<Seq<char>>> {
    match result {
        JsonV::Object(m) => match json::member(m, "content"@) {
            Some(JsonV::Array(a)) => a.map_values(|b: JsonV| block_type(b)),
            _ => Seq::empty(),
        },
        _ => Seq::empty(),
    }
}

/// The `type` of one content block, when it is a string.
pub open spec fn block_type(b: JsonV) -> Option<Seq<char>> {
    match b {
        JsonV::Object(m) => json::member_str(m, "type"@),
        _ => None,
    }
}

/// A tool result as stored: secrets redacted and inline payloads replaced
/// by their size, every `ziee://<host path>` blanked, then capped at
/// `MAX_RESULT_BYTES`.
pub open spec fn stored_result(result: JsonV) -> JsonV {
    capped_value(scrubbed(sanitized(result, false)), MAX_RESULT_BYTES as nat)
}

/// The stored form of a tool result (the result as `serde_json` writes
/// it): see [`stored_result`]; its distinct content kinds; and the length
/// of its JSON text before anything was stripped.
pub fn capture_result(result: &Json) -> (r: ResultCapture)
    ensures
        jview(r.result_json) == stored_result(jview(*result)),
        r.content_kinds@.map_values(|s: String| s@) == distinct_kinds(block_types(jview(*result))),
        r.result_bytes == json_len(jview(*result)) as i64,
{
    let full_bytes = serialized_len(result);
    let mut types: Vec<Option<String>> = Vec::new();
    if let Json::Object(m) = result {
        if let Some(Json::Array(a)) = json::get_member(m, "content") {
            let mut i: usize = 0;
            proof {
                json::lemma_items_view(a@);
            }
            while i < a.len()
                invariant
                    i <= a@.len(),
                    items_view(a@).len() == a@.len(),
                    forall|k: int| 0 <= k < a@.len() ==> #[trigger] items_view(a@)[k] == jview(a@[k]),
                    types@.map_values(|o: Option<String>| crate::auth::opt_view(o)) == items_view(
                        a@,
                    ).take(i as int).map_values(|b: JsonV| block_type(b)),
                decreases a@.len() - i,
            {
                let t = match &a[i] {
                    Json::Object(bm) => match json::get_str(bm, "type") {
                        Some(s) => Some(s.clone()),
                        None => None,
                    },
                    _ => None,
                };
                assert(crate::auth::opt_view(t) == block_type(jview(a@[i as int])));
                let ghost before = types@;
                types.push(t);
                proof {
                    assert(items_view(a@).take(i + 1) =~= items_view(a@).take(i as int).push(
                        jview(a@[i as int]),
                    ));
                    assert(types@ =~= before.push(t));
                    assert(types@.map_values(|o: Option<String>| crate::auth::opt_view(o))
                        =~= before.map_values(|o: Option<String>| crate::auth::opt_view(o)).push(
                        crate::auth::opt_view(t),
                    ));
                    assert(items_view(a@).take(i + 1).map_values(|b: JsonV| block_type(b))
                        =~= items_view(a@).take(i as int).map_values(|b: JsonV| block_type(b)).push(
                        block_type(jview(a@[i as int])),
                    ));
                    assert(types@.map_values(|o: Option<String>| crate::auth::opt_view(o))
                        =~= items_view(a@).take(i + 1).map_values(|b: JsonV| block_type(b)));
                }
                i = i + 1;
            }
            proof {
                assert(items_view(a@).take(a@.len() as int) =~= items_view(a@));
            }
        }
    }
    let content_kinds = content_kinds(&types);
    let mut sanitized_v = crate::record::sanitize_value(result);
    crate::resource_link::scrub_ziee_in_value(&mut sanitized_v);
    let bytes = serialized_len(&sanitized_v);
    let result_json = crate::record::cap_to_size(sanitized_v, bytes, MAX_RESULT_BYTES);
    let result_bytes: i64 = #[verifier::truncate] (full_bytes as i64);
    ResultCapture { result_json, content_kinds, result_bytes }
}

/// How a call ended: its result (as `serde_json` writes a tool result),
/// with whether the tool reported an error, or the error that ended it.
pub enum CallOutcome {
    Finished { is_error: bool, result: Json },
    Failed(McpError),
}

/// A row of the tool-call history, ready to insert. Instants are Unix
/// milliseconds.
#[derive(Debug)]
pub struct CreateMcpToolCall {
    pub server_id: Option<u128>,
    pub server_name: String,
    pub is_built_in: bool,
    pub user_id: u128,
    pub conversation_id: Option<u128>,
    pub branch_id: Option<u128>,
    pub message_id: Option<u128>,
    pub tool_use_id: Option<String>,
    pub tool_name: String,
    pub arguments_json: Json,
    pub source: McpToolCallSource,
    pub status: McpToolCallStatus,
    pub is_error: bool,
    pub result_json: Option<Json>,
    pub content_kinds: Vec<String>,
    pub result_bytes: i64,
    pub error_message: Option<String>,
    pub started_at_ms: i64,
    pub finished_at_ms: Option<i64>,
    pub duration_ms: Option<i64>,
    pub workflow_run_id: Option<u128>,
    pub review_classification: Option<String>,
}

/// The history row of a finished call, or `None` for a session without an
/// owner. A finished call is `Failed` when the tool reported an error and
/// `Completed` otherwise; a call that errored is classified by its error
/// (a timeout or a failure) and keeps the error's text. The arguments and
/// the result are stored as [`stored_arguments`] and [`capture_result`]
/// make them.
pub fn build_record(
    server_id: u128,
    ctx: &McpCallContext,
    tool_name: &str,
    arguments: &Json,
    outcome: CallOutcome,
    started_at_ms: i64,
    elapsed_ms: i64,
) -> (r: Option<CreateMcpToolCall>)
    requires
        i64::MIN <= started_at_ms + elapsed_ms <= i64::MAX,
    ensures
        ctx.user_id is None <==> r is None,
        r matches Some(c) ==> {
            &&& c.user_id == ctx.user_id->0
            &&& c.server_id == Some(server_id)
            &&& c.server_name@ == ctx.server_name@
            &&& c.is_built_in == ctx.is_built_in
            &&& c.conversation_id == ctx.conversation_id
            &&& c.branch_id == ctx.branch_id
            &&& c.message_id == ctx.message_id
            &&& crate::auth::opt_view(c.tool_use_id) == crate::auth::opt_view(ctx.tool_use_id)
            &&& c.tool_name@ == tool_name@
            &&& jview(c.arguments_json) == stored_arguments(jview(*arguments))
            &&& c.source == ctx.source
            &&& c.workflow_run_id == ctx.workflow_run_id
            &&& crate::auth::opt_view(c.review_classification) == crate::auth::opt_view(
                ctx.review_classification,
            )
            &&& c.started_at_ms == started_at_ms
            &&& c.finished_at_ms == Some((started_at_ms + elapsed_ms) as i64)
            &&& c.duration_ms == Some(elapsed_ms)
            &&& match outcome {
                CallOutcome::Finished { is_error, result } => {
                    &&& c.status == if is_error {
                        McpToolCallStatus::Failed
                    } else {
                        McpToolCallStatus::Completed
                    }
                    &&& c.is_error == is_error
                    &&& c.result_json matches Some(j) && jview(j) == stored_result(jview(result))
                    &&& c.content_kinds@.map_values(|s: String| s@) == distinct_kinds(
                        block_types(jview(result)),
                    )
                    &&& c.result_bytes == json_len(jview(result)) as i64
                    &&& c.error_message is None
                },
                CallOutcome::Failed(e) => {
                    &&& c.status == if timed_out(e.code@, e.message@) {
                        McpToolCallStatus::Timeout
                    } else {
                        McpToolCallStatus::Failed
                    }
                    &&& c.is_error
                    &&& c.result_json is None
                    &&& c.content_kinds@.len() == 0
                    &&& c.result_bytes == 0
                    &&& c.error_message matches Some(m) && m@ == e.message@
                },
            }
        },
{
    let user_id = match ctx.user_id {
        Some(u) => u,
        None => {
            return None;
        },
    };
    let (status, is_error, result_json, content_kinds, result_bytes, error_message) =
        match outcome {
        CallOutcome::Finished { is_error, result } => {
            let capture = capture_result(&result);
            let status = if is_error {
                McpToolCallStatus::Failed
            } else {
                McpToolCallStatus::Completed
            };
            (
                status,
                is_error,
                Some(capture.result_json),
                capture.content_kinds,
                capture.result_bytes,
                None,
            )
        },
        CallOutcome::Failed(e) => {
            let status = classify_error_status(&e);
            (status, true, None, Vec::new(), 0i64, Some(e.to_text()))
        },
    };
    let tool_use_id = match &ctx.tool_use_id {
        Some(t) => Some(t.clone()),
        None => None,
    };
    let review_classification = match &ctx.review_classification {
        Some(t) => Some(t.clone()),
        None => None,
    };
    Some(
        CreateMcpToolCall {
            server_id: Some(server_id),
            server_name: ctx.server_name.clone(),
            is_built_in: ctx.is_built_in,
            user_id,
            conversation_id: ctx.conversation_id,
            branch_id: ctx.branch_id,
            message_id: ctx.message_id,
            tool_use_id,
            tool_name: String::from_str(tool_name),
            arguments_json: crate::record::cap_arguments(arguments),
            source: ctx.source,
            status,
            is_error,
            result_json,
            content_kinds,
            result_bytes,
            error_message,
            started_at_ms,
            finished_at_ms: Some(started_at_ms + elapsed_ms),
            duration_ms: Some(elapsed_ms),
            workflow_run_id: ctx.workflow_run_id,
            review_classification,
        },
    )
}

} // verus!
