//! The event stream of a tool call answered over SSE: framing the bytes
//! read into event blocks, reading each block's JSON-RPC message, deciding
//! what each message asks for (a progress notice, a server-to-client
//! request, the call's result or error), and the replies posted back.
use crate::elicitation::content_view;
use crate::error::McpError;
use crate::json::{self, jview, member, members_view, Json, JsonV};
use crate::json_codec::{decode_json, json_decoded, json_text, json_to_string};
use crate::sampling::{SamplingContent, SamplingCreateMessageResult};
use crate::sse;
use crate::text;
use vstd::prelude::*;
use vstd::string::StringExecFns;

verus! {

/// Text read from an event stream that does not yet form a complete
/// event.
#[derive(Debug)]
pub struct EventBuffer {
    text: String,
}

/// `t` with every line break (`\r\n` or a lone `\r`) turned into `\n`.
pub open spec fn lf_normalized(t: Seq<char>) -> Seq<char> {
    text::cr_to_lf(text::crlf_to_lf(t))
}

/// The UTF-8 length of buffered text, as `str::len` reports it.
pub open spec fn buffered_bytes(t: Seq<char>) -> usize {
    vstd::utf8::encode_utf8(t).len() as usize
}

impl EventBuffer {
    /// The buffered text.
    pub closed spec fn view(&self) -> Seq<char> {
        self.text@
    }

    /// An empty buffer.
    pub fn new() -> (r: EventBuffer)
        ensures
            r.view() == Seq::<char>::empty(),
    {
        EventBuffer { text: String::new() }
    }

    /// The buffered text's length in UTF-8 bytes.
    pub fn byte_len(&self) -> (r: usize)
        ensures
            r == buffered_bytes(self.view()),
    {
        self.text.as_str().len()
    }

    /// Appends `t` as it is.
    pub fn push_text(&mut self, t: &str)
        ensures
            final(self).view() == old(self).view() + t@,
    {
        self.text.append(t);
    }

    /// Appends `t` with its line breaks normalized to `\n`.
    pub fn push_normalized(&mut self, t: &str)
        ensures
            final(self).view() == old(self).view() + lf_normalized(t@),
    {
        let v = text::chars_of(t);
        let w = text::crlf_to_lf_chars(&v);
        let mut i: usize = 0;
        let ghost start = self.text@;
        while i < w.len()
            invariant
                i <= w@.len(),
                w@ == text::crlf_to_lf(t@),
                self.text@ == start + text::cr_to_lf(w@.take(i as int)),
            decreases w@.len() - i,
        {
            let c = if w[i] == '\r' {
                '\n'
            } else {
                w[i]
            };
            text::string_push(&mut self.text, c);
            assert(text::cr_to_lf(w@.take(i + 1)) =~= text::cr_to_lf(w@.take(i as int)).push(c));
            i = i + 1;
        }
        assert(w@.take(i as int) =~= w@);
    }

    /// Whether the buffer holds `pat`.
    pub fn holds(&self, pat: &str) -> (r: bool)
        ensures
            r == text::contains(self.view(), pat@),
    {
        text::str_contains(self.text.as_str(), pat)
    }

    /// Takes out the first complete block: the text before the first `sep`
    /// (which is dropped too). `None`, with the buffer unchanged, when no
    /// `sep` is buffered.
    pub fn next_block(&mut self, sep: &str) -> (r: Option<String>)
        ensures
            match r {
                Some(b) => {
                    let i = text::index_of_sub(old(self).view(), sep@);
                    &&& i >= 0
                    &&& b@ == old(self).view().take(i)
                    &&& final(self).view() == old(self).view().skip(i + sep@.len())
                },
                None => text::index_of_sub(old(self).view(), sep@) < 0 && final(self).view()
                    == old(self).view(),
            },
    {
        let v = text::chars_of(self.text.as_str());
        let n = v.len();
        let t = text::chars_of(sep);
        assert(v@.subrange(0, n as int) =~= v@);
        match text::find_sub(&v, 0, n, &t) {
            Some(k) => {
                proof {
                    text::lemma_index_of_sub_bounds(v@, t@);
                }
                let block = text::string_of_range(&v, 0, k);
                let rest = text::string_of_range(&v, k + t.len(), n);
                assert(v@.subrange(0, k as int) =~= v@.take(k as int));
                assert(v@.subrange(k + t@.len(), n as int) =~= v@.skip(k + t@.len()));
                self.text = rest;
                Some(block)
            },
            None => None,
        }
    }

    /// Drops everything buffered (a resumed stream starts afresh).
    pub fn clear(&mut self)
        ensures
            final(self).view() == Seq::<char>::empty(),
    {
        self.text = String::new();
    }
}

/// Framing loses and invents nothing: the block taken out, the separator
/// and what stays buffered make up the buffer, and the block holds no
/// separator (it ends at the first one).
pub proof fn law_framing_splits_at_first_separator(buf: Seq<char>, sep: Seq<char>)
    requires
        text::index_of_sub(buf, sep) >= 0,
    ensures
        ({
            let i = text::index_of_sub(buf, sep);
            &&& buf == buf.take(i) + sep + buf.skip(i + sep.len())
            &&& (sep.len() > 0 ==> !text::contains(buf.take(i), sep))
        }),
{
    let i = text::index_of_sub(buf, sep);
    text::lemma_index_of_sub_bounds(buf, sep);
    assert(buf =~= buf.take(i) + buf.subrange(i, i + sep.len()) + buf.skip(i + sep.len()));
    if sep.len() > 0 && text::contains(buf.take(i), sep) {
        let j = choose|j: int|
            0 <= j && j + sep.len() <= buf.take(i).len() && #[trigger] buf.take(i).subrange(
                j,
                j + sep.len(),
            ) == sep;
        assert(buf.take(i).subrange(j, j + sep.len()) =~= buf.subrange(j, j + sep.len()));
        text::lemma_index_of_sub_first(buf, sep, j);
    }
}

/// What one message of a tool call's event stream asks for.
#[derive(Debug, PartialEq, Eq)]
pub enum StreamMessage {
    /// A `notifications/progress` notice, with its params.
    Progress { params: Json },
    /// An `elicitation/create` request: its id, its message and its
    /// requested schema (both as sent, before any check).
    Elicitation { request_id: Json, message: String, requested_schema: Json },
    /// A `sampling/createMessage` request to serve, with its params.
    Sampling { request_id: Json, params: Json },
    /// A `sampling/createMessage` request on a call that does not serve
    /// sampling: to be refused.
    SamplingUnsupported { request_id: Json },
    /// The call's result.
    ToolResult(Json),
    /// The call's error.
    ToolError(Json),
    /// Anything else: ignored.
    Other,
}

/// The view of a [`StreamMessage`].
pub enum StreamMessageV {
    Progress(JsonV),
    Elicitation(JsonV, Seq<char>, JsonV),
    Sampling(JsonV, JsonV),
    SamplingUnsupported(JsonV),
    ToolResult(JsonV),
    ToolError(JsonV),
    Other,
}

/// The view of a message.
pub open spec fn message_view(m: StreamMessage) -> StreamMessageV {
    match m {
        StreamMessage::Progress { params } => StreamMessageV::Progress(jview(params)),
        StreamMessage::Elicitation { request_id, message, requested_schema } => {
            StreamMessageV::Elicitation(jview(request_id), message@, jview(requested_schema))
        },
        StreamMessage::Sampling { request_id, params } => StreamMessageV::Sampling(
            jview(request_id),
            jview(params),
        ),
        StreamMessage::SamplingUnsupported { request_id } => StreamMessageV::SamplingUnsupported(
            jview(request_id),
        ),
        StreamMessage::ToolResult(r) => StreamMessageV::ToolResult(jview(r)),
        StreamMessage::ToolError(e) => StreamMessageV::ToolError(jview(e)),
        StreamMessage::Other => StreamMessageV::Other,
    }
}

/// Member `k` of a value, when it is an object that has one.
pub open spec fn get(v: JsonV, k: Seq<char>) -> Option<JsonV> {
    match v {
        JsonV::Object(m) => member(m, k),
        _ => None,
    }
}

/// The value, or `null`.
pub open spec fn or_null(o: Option<JsonV>) -> JsonV {
    match o {
        Some(v) => v,
        None => JsonV::Null,
    }
}

/// The string member `k` of a value, if any.
pub open spec fn get_str(v: JsonV, k: Seq<char>) -> Option<Seq<char>> {
    match get(v, k) {
        Some(JsonV::Str(s)) => Some(s),
        _ => None,
    }
}

/// What a message asks for: by its string `method` first (progress,
/// elicitation, sampling — refused when `sampling` is off); any other
/// message is the call's result when it has a `result`, its error when it
/// has an `error`, and is ignored otherwise.
pub open spec fn stream_step(v: JsonV, sampling: bool) -> StreamMessageV {
    let id = or_null(get(v, "id"@));
    let params = or_null(get(v, "params"@));
    let by_method = match get_str(v, "method"@) {
        Some(m) => if m == "notifications/progress"@ {
            Some(StreamMessageV::Progress(params))
        } else if m == "elicitation/create"@ {
            Some(
                StreamMessageV::Elicitation(
                    id,
                    match get_str(params, "message"@) {
                        Some(s) => s,
                        None => Seq::empty(),
                    },
                    or_null(get(params, "requestedSchema"@)),
                ),
            )
        } else if m == "sampling/createMessage"@ {
            if sampling {
                Some(StreamMessageV::Sampling(id, params))
            } else {
                Some(StreamMessageV::SamplingUnsupported(id))
            }
        } else {
            None
        },
        None => None,
    };
    match by_method {
        Some(s) => s,
        None => match get(v, "result"@) {
            Some(r) => StreamMessageV::ToolResult(r),
            None => match get(v, "error"@) {
                Some(e) => StreamMessageV::ToolError(e),
                None => StreamMessageV::Other,
            },
        },
    }
}

/// Member `k` of a value, copied, when it is an object that has one.
fn get_copy(v: &Json, k: &str) -> (r: Option<Json>)
    ensures
        match r {
            Some(x) => get(jview(*v), k@) == Some(jview(x)),
            None => get(jview(*v), k@) is None,
        },
{
    match v {
        Json::Object(m) => match json::get_member(m, k) {
            Some(x) => Some(json::copy(x)),
            None => None,
        },
        _ => None,
    }
}

/// Member `k` of a value, copied, or `null`.
fn get_or_null(v: &Json, k: &str) -> (r: Json)
    ensures
        jview(r) == or_null(get(jview(*v), k@)),
{
    match get_copy(v, k) {
        Some(x) => x,
        None => Json::Null,
    }
}

/// What one message of a tool call's stream asks for (see
/// [`stream_step`]); `sampling` tells whether the call serves sampling
/// requests.
pub fn classify_stream_message(msg: &Json, sampling: bool) -> (r: StreamMessage)
    ensures
        message_view(r) == stream_step(jview(*msg), sampling),
{
    let method: Option<String> = match get_copy(msg, "method") {
        Some(Json::Str(s)) => Some(s),
        _ => None,
    };
    if let Some(m) = method {
        if text::str_eq(m.as_str(), "notifications/progress") {
            return StreamMessage::Progress { params: get_or_null(msg, "params") };
        }
        if text::str_eq(m.as_str(), "elicitation/create") {
            let params = get_or_null(msg, "params");
            let message = match get_copy(&params, "message") {
                Some(Json::Str(s)) => s,
                _ => String::new(),
            };
            let requested_schema = get_or_null(&params, "requestedSchema");
            return StreamMessage::Elicitation {
                request_id: get_or_null(msg, "id"),
                message,
                requested_schema,
            };
        }
        if text::str_eq(m.as_str(), "sampling/createMessage") {
            let request_id = get_or_null(msg, "id");
            if sampling {
                return StreamMessage::Sampling { request_id, params: get_or_null(msg, "params") };
            } else {
                return StreamMessage::SamplingUnsupported { request_id };
            }
        }
    }
    match get_copy(msg, "result") {
        Some(r) => StreamMessage::ToolResult(r),
        None => match get_copy(msg, "error") {
            Some(e) => StreamMessage::ToolError(e),
            None => StreamMessage::Other,
        },
    }
}

/// The first line of `ls` that starts with `p`, without `p`.
pub open spec fn first_prefixed(ls: Seq<Seq<char>>, p: Seq<char>) -> Option<Seq<char>>
    decreases ls.len(),
{
    if ls.len() == 0 {
        None
    } else if text::starts_with(ls[0], p) {
        Some(ls[0].skip(p.len() as int))
    } else {
        first_prefixed(ls.drop_first(), p)
    }
}

/// The first line with the prefix wins: in two runs of lines, the first
/// run's line when it has one, the second run's otherwise.
pub proof fn law_first_prefixed_line_wins(ls1: Seq<Seq<char>>, ls2: Seq<Seq<char>>, p: Seq<char>)
    ensures
        first_prefixed(ls1 + ls2, p) == if first_prefixed(ls1, p) is Some {
            first_prefixed(ls1, p)
        } else {
            first_prefixed(ls2, p)
        },
    decreases ls1.len(),
{
    if ls1.len() == 0 {
        assert(ls1 + ls2 =~= ls2);
    } else {
        assert((ls1 + ls2).drop_first() =~= ls1.drop_first() + ls2);
        assert((ls1 + ls2)[0] == ls1[0]);
        law_first_prefixed_line_wins(ls1.drop_first(), ls2, p);
    }
}

/// The data of a tool call's event block: the rest of its first line that
/// starts with `data: `.
pub fn first_data_line(event_block: &str) -> (r: Option<String>)
    ensures
        match r {
            Some(d) => first_prefixed(text::lines(event_block@), "data: "@) == Some(d@),
            None => first_prefixed(text::lines(event_block@), "data: "@) is None,
        },
{
    let v = text::chars_of(event_block);
    let n = v.len();
    let prefix = text::chars_of("data: ");
    proof {
        reveal_strlit("data: ");
    }
    let mut st: usize = 0;
    assert(v@.subrange(0, n as int) =~= event_block@);
    while st < n
        invariant
            st <= n == v@.len(),
            prefix@ == "data: "@,
            first_prefixed(text::lines(event_block@), "data: "@) == first_prefixed(
                text::lines(v@.subrange(st as int, n as int)),
                "data: "@,
            ),
        decreases n - st,
    {
        proof {
            reveal_strlit("data: ");
        }
        let (a, b, next) = text::next_line(&v, st, n);
        let ghost rest = text::lines(v@.subrange(st as int, n as int));
        assert(rest[0] == v@.subrange(a as int, b as int));
        assert(rest.drop_first() =~= text::lines(v@.subrange(next as int, n as int)));
        if text::range_starts_with(&v, a, b, &prefix) {
            assert(v@.subrange(a as int, b as int).skip(6) =~= v@.subrange(a + 6, b as int));
            return Some(text::string_of_range(&v, a + 6, b));
        }
        st = next;
    }
    assert(v@.subrange(st as int, n as int) =~= Seq::<char>::empty());
    assert(text::lines(Seq::<char>::empty()) =~= Seq::<Seq<char>>::empty());
    None
}

/// What one event block of a tool call's stream asks for: the data of its
/// first `data: ` line, decoded as JSON, classified by [`stream_step`]; a
/// block without data (a priming or keep-alive event) and data that is no
/// JSON text ask for nothing.
pub open spec fn event_step(block: Seq<char>, sampling: bool) -> StreamMessageV {
    match first_prefixed(text::lines(block), "data: "@) {
        Some(d) => if d.len() == 0 {
            StreamMessageV::Other
        } else {
            match json_decoded(d) {
                Some(v) => stream_step(v, sampling),
                None => StreamMessageV::Other,
            }
        },
        None => StreamMessageV::Other,
    }
}

/// What one event block of a tool call's stream asks for (see
/// [`event_step`]); `sampling` tells whether the call serves sampling
/// requests.
pub fn event_message(event_block: &str, sampling: bool) -> (r: StreamMessage)
    ensures
        message_view(r) == event_step(event_block@, sampling),
{
    let data = match first_data_line(event_block) {
        Some(d) => d,
        None => {
            return StreamMessage::Other;
        },
    };
    if data.unicode_len() == 0 {
        return StreamMessage::Other;
    }
    match decode_json(data.as_str()) {
        Some(msg) => classify_stream_message(&msg, sampling),
        None => StreamMessage::Other,
    }
}

/// The error a tool call ends with when its stream carries the call's
/// `error`: `MCP tool error: ` and the error's JSON text.
pub fn tool_error(error: &Json) -> (r: McpError)
    ensures
        r.status == crate::error::STATUS_INTERNAL,
        r.code@ == "INTERNAL_ERROR"@,
        r.message@ == "MCP tool error: "@ + json_text(jview(*error)),
{
    let t = json_to_string(error);
    McpError::internal_error(text::concat2("MCP tool error: ", t.as_str()))
}

/// The message refusing an event that grew past the buffer limit.
pub open spec fn oversized_event_message() -> Seq<char> {
    "MCP SSE event exceeded 50MB limit \u{2014} server may be sending malformed events without \\n\\n terminator"@
}

/// The read side of a tool call's event stream: what is buffered and the
/// last event id seen (for resuming with `Last-Event-Id`).
#[derive(Debug)]
pub struct ToolCallStream {
    pub buffer: EventBuffer,
    pub last_event_id: Option<String>,
}

impl ToolCallStream {
    /// Nothing read yet.
    pub fn new() -> (r: ToolCallStream)
        ensures
            r.buffer.view() == Seq::<char>::empty(),
            r.last_event_id is None,
    {
        ToolCallStream { buffer: EventBuffer::new(), last_event_id: None }
    }

    /// Takes a chunk read from the stream: `text` is its lossy UTF-8
    /// decoding and `chunk_bytes` its raw length. Refused, with nothing
    /// buffered, when the buffer's bytes and the chunk's would pass the
    /// event limit.
    pub fn push_chunk(&mut self, text: &str, chunk_bytes: usize) -> (r: Result<(), McpError>)
        ensures
            r is Err <==> buffered_bytes(old(self).buffer.view()) + chunk_bytes
                > sse::MAX_SSE_EVENT_BYTES,
            r matches Err(e) ==> e.status == crate::error::STATUS_INTERNAL && e.message@
                == oversized_event_message() && final(self).buffer.view() == old(self).buffer.view(),
            r is Ok ==> final(self).buffer.view() == old(self).buffer.view() + text@,
            final(self).last_event_id == old(self).last_event_id,
    {
        let held = self.buffer.byte_len();
        if chunk_bytes > sse::MAX_SSE_EVENT_BYTES || held > sse::MAX_SSE_EVENT_BYTES - chunk_bytes {
            return Err(
                McpError::internal_error(
                    String::from_str(
                        "MCP SSE event exceeded 50MB limit \u{2014} server may be sending malformed events without \\n\\n terminator",
                    ),
                ),
            );
        }
        self.buffer.push_text(text);
        Ok(())
    }

    /// The event separator in force for the chunk just taken: `\r\n\r\n`
    /// when CRLF framing is honoured and the buffer holds one, `\n\n`
    /// otherwise.
    pub fn separator(&self, crlf_aware: bool) -> (r: &'static str)
        ensures
            r@ == if crlf_aware && text::contains(self.buffer.view(), "\r\n\r\n"@) {
                "\r\n\r\n"@
            } else {
                "\n\n"@
            },
    {
        if crlf_aware && self.buffer.holds("\r\n\r\n") {
            "\r\n\r\n"
        } else {
            "\n\n"
        }
    }

    /// Takes out the next complete event block (see
    /// [`EventBuffer::next_block`]) and remembers its `id:`, when it has
    /// one.
    pub fn next_event(&mut self, sep: &str) -> (r: Option<String>)
        ensures
            match r {
                Some(b) => {
                    let i = text::index_of_sub(old(self).buffer.view(), sep@);
                    &&& i >= 0
                    &&& b@ == old(self).buffer.view().take(i)
                    &&& final(self).buffer.view() == old(self).buffer.view().skip(i + sep@.len())
                    &&& match sse::id_fold(text::lines(b@)) {
                        Some(id) => final(self).last_event_id matches Some(s) && s@ == id,
                        None => final(self).last_event_id == old(self).last_event_id,
                    }
                },
                None => text::index_of_sub(old(self).buffer.view(), sep@) < 0
                    && final(self).buffer.view() == old(self).buffer.view()
                    && final(self).last_event_id == old(self).last_event_id,
            },
    {
        match self.buffer.next_block(sep) {
            Some(b) => {
                if let Some(id) = sse::sse_event_id(b.as_str()) {
                    self.last_event_id = Some(id);
                }
                Some(b)
            },
            None => None,
        }
    }

    /// Starts over on a resumed stream: the buffer is dropped, the last
    /// event id kept.
    pub fn resume(&mut self)
        ensures
            final(self).buffer.view() == Seq::<char>::empty(),
            final(self).last_event_id == old(self).last_event_id,
    {
        self.buffer.clear();
    }
}

/// The reply to an elicitation request: `{"action"}` and, for an accept,
/// its `content` (`null` when none), under the request's id.
pub open spec fn elicitation_reply_view(
    request_id: JsonV,
    action: Seq<char>,
    content: Option<JsonV>,
) -> JsonV {
    let result = if action == "accept"@ {
        JsonV::Object(
            seq![("action"@, JsonV::Str(action)), ("content"@, or_null(content))],
        )
    } else {
        JsonV::Object(seq![("action"@, JsonV::Str(action))])
    };
    JsonV::Object(
        seq![("id"@, request_id), ("jsonrpc"@, JsonV::Str("2.0"@)), ("result"@, result)],
    )
}

/// The JSON-RPC reply posted back for an elicitation request.
pub fn elicitation_reply(request_id: Json, action: &str, content: Option<Json>) -> (r: Json)
    ensures
        jview(r) == elicitation_reply_view(
            jview(request_id),
            action@,
            content_view(content),
        ),
{
    let ghost cv = content_view(content);
    let mut result: Vec<(String, Json)> = Vec::new();
    result.push((String::from_str("action"), Json::Str(String::from_str(action))));
    if text::str_eq(action, "accept") {
        let c = match content {
            Some(c) => c,
            None => Json::Null,
        };
        result.push((String::from_str("content"), c));
    }
    proof {
        json::lemma_members_view(result@);
    }
    let mut body: Vec<(String, Json)> = Vec::new();
    body.push((String::from_str("id"), request_id));
    body.push((String::from_str("jsonrpc"), Json::Str(String::from_str("2.0"))));
    body.push((String::from_str("result"), Json::Object(result)));
    proof {
        json::lemma_members_view(body@);
        assert(members_view(body@) =~= seq![
            ("id"@, jview(request_id)),
            ("jsonrpc"@, JsonV::Str("2.0"@)),
            ("result"@, jview(Json::Object(result))),
        ]);
    }
    let r = Json::Object(body);
    assert(jview(r) == elicitation_reply_view(jview(request_id), action@, cv)) by {
        if action@ == "accept"@ {
            assert(members_view(result@) =~= seq![
                ("action"@, JsonV::Str(action@)),
                ("content"@, or_null(cv)),
            ]);
        } else {
            assert(members_view(result@) =~= seq![("action"@, JsonV::Str(action@))]);
        }
    }
    r
}

/// The text refusing a sampling request on a call that does not serve
/// sampling.
pub open spec fn sampling_unsupported_message() -> Seq<char> {
    "sampling/createMessage is not supported \u{2014} enable sampling on this MCP server to use this feature"@
}

/// The JSON-RPC error reply refusing a sampling request (`-32601`).
pub fn sampling_unsupported_reply(request_id: Json) -> (r: Json)
    ensures
        jview(r) == JsonV::Object(
            seq![
                (
                    "error"@,
                    JsonV::Object(
                        seq![
                            ("code"@, JsonV::Number("-32601"@)),
                            ("message"@, JsonV::Str(sampling_unsupported_message())),
                        ],
                    ),
                ),
                ("id"@, jview(request_id)),
                ("jsonrpc"@, JsonV::Str("2.0"@)),
            ],
        ),
{
    let mut err: Vec<(String, Json)> = Vec::new();
    err.push((String::from_str("code"), Json::Number(String::from_str("-32601"))));
    err.push(
        (
            String::from_str("message"),
            Json::Str(
                String::from_str(
                    "sampling/createMessage is not supported \u{2014} enable sampling on this MCP server to use this feature",
                ),
            ),
        ),
    );
    proof {
        json::lemma_members_view(err@);
    }
    let ghost ev = members_view(err@);
    let mut body: Vec<(String, Json)> = Vec::new();
    body.push((String::from_str("error"), Json::Object(err)));
    body.push((String::from_str("id"), request_id));
    body.push((String::from_str("jsonrpc"), Json::Str(String::from_str("2.0"))));
    proof {
        json::lemma_members_view(body@);
        assert(members_view(body@) =~= seq![
            ("error"@, JsonV::Object(ev)),
            ("id"@, jview(request_id)),
            ("jsonrpc"@, JsonV::Str("2.0"@)),
        ]);
        assert(ev =~= seq![
            ("code"@, JsonV::Number("-32601"@)),
            ("message"@, JsonV::Str(sampling_unsupported_message())),
        ]);
    }
    Json::Object(body)
}

/// The answer returned to a server when its sampling request could not be
/// served: an assistant text `Error: {detail}` from model `unknown`,
/// stopped for `error`.
pub fn sampling_error_result(detail: &str) -> (r: SamplingCreateMessageResult)
    ensures
        r.role@ == "assistant"@,
        r.content matches SamplingContent::Text { text } && text@ == "Error: "@ + detail@,
        r.model@ == "unknown"@,
        r.stop_reason matches Some(s) && s@ == "error"@,
{
    SamplingCreateMessageResult {
        role: String::from_str("assistant"),
        content: SamplingContent::Text { text: text::concat2("Error: ", detail) },
        model: String::from_str("unknown"),
        stop_reason: Some(String::from_str("error")),
    }
}

/// A sampling content as `serde_json` writes it: tagged by `type`, members
/// in key order.
pub open spec fn content_json(c: SamplingContent) -> JsonV {
    match c {
        SamplingContent::Text { text } => JsonV::Object(
            seq![("text"@, JsonV::Str(text@)), ("type"@, JsonV::Str("text"@))],
        ),
        SamplingContent::Image { data, mime_type } => JsonV::Object(
            seq![
                ("data"@, JsonV::Str(data@)),
                ("mimeType"@, JsonV::Str(mime_type@)),
                ("type"@, JsonV::Str("image"@)),
            ],
        ),
        SamplingContent::Unknown => JsonV::Object(seq![("type"@, JsonV::Str("unknown"@))]),
    }
}

/// A sampling result as `serde_json` writes it: `content`, `model`, `role`
/// and, when there is one, `stopReason`, in key order.
pub open spec fn sampling_result_view(r: SamplingCreateMessageResult) -> JsonV {
    let base = seq![
        ("content"@, content_json(r.content)),
        ("model"@, JsonV::Str(r.model@)),
        ("role"@, JsonV::Str(r.role@)),
    ];
    JsonV::Object(
        match r.stop_reason {
            Some(s) => base.push(("stopReason"@, JsonV::Str(s@))),
            None => base,
        },
    )
}

/// The result answering a sampling request whose handler failed with
/// `detail` (see [`sampling_error_result`]).
pub open spec fn sampling_error_view(detail: Seq<char>) -> JsonV {
    JsonV::Object(
        seq![
            (
                "content"@,
                JsonV::Object(
                    seq![("text"@, JsonV::Str("Error: "@ + detail)), ("type"@, JsonV::Str("text"@))],
                ),
            ),
            ("model"@, JsonV::Str("unknown"@)),
            ("role"@, JsonV::Str("assistant"@)),
            ("stopReason"@, JsonV::Str("error"@)),
        ],
    )
}

/// The JSON-RPC reply carrying `result` under the request's id.
pub open spec fn result_reply_view(request_id: JsonV, result: JsonV) -> JsonV {
    JsonV::Object(
        seq![("id"@, request_id), ("jsonrpc"@, JsonV::Str("2.0"@)), ("result"@, result)],
    )
}

/// A sampling content as JSON (see [`content_json`]).
fn content_to_json(c: &SamplingContent) -> (r: Json)
    ensures
        jview(r) == content_json(*c),
{
    let mut m: Vec<(String, Json)> = Vec::new();
    match c {
        SamplingContent::Text { text } => {
            m.push((String::from_str("text"), Json::Str(text.clone())));
            m.push((String::from_str("type"), Json::Str(String::from_str("text"))));
            proof {
                json::lemma_members_view(m@);
                assert(members_view(m@) =~= seq![
                    ("text"@, JsonV::Str(text@)),
                    ("type"@, JsonV::Str("text"@)),
                ]);
            }
        },
        SamplingContent::Image { data, mime_type } => {
            m.push((String::from_str("data"), Json::Str(data.clone())));
            m.push((String::from_str("mimeType"), Json::Str(mime_type.clone())));
            m.push((String::from_str("type"), Json::Str(String::from_str("image"))));
            proof {
                json::lemma_members_view(m@);
                assert(members_view(m@) =~= seq![
                    ("data"@, JsonV::Str(data@)),
                    ("mimeType"@, JsonV::Str(mime_type@)),
                    ("type"@, JsonV::Str("image"@)),
                ]);
            }
        },
        SamplingContent::Unknown => {
            m.push((String::from_str("type"), Json::Str(String::from_str("unknown"))));
            proof {
                json::lemma_members_view(m@);
                assert(members_view(m@) =~= seq![("type"@, JsonV::Str("unknown"@))]);
            }
        },
    }
    Json::Object(m)
}

/// A sampling result as JSON (see [`sampling_result_view`]).
pub fn sampling_result_json(r: &SamplingCreateMessageResult) -> (j: Json)
    ensures
        jview(j) == sampling_result_view(*r),
{
    let mut m: Vec<(String, Json)> = Vec::new();
    m.push((String::from_str("content"), content_to_json(&r.content)));
    m.push((String::from_str("model"), Json::Str(r.model.clone())));
    m.push((String::from_str("role"), Json::Str(r.role.clone())));
    proof {
        json::lemma_members_view(m@);
    }
    let ghost base = members_view(m@);
    assert(base =~= seq![
        ("content"@, content_json(r.content)),
        ("model"@, JsonV::Str(r.model@)),
        ("role"@, JsonV::Str(r.role@)),
    ]);
    match &r.stop_reason {
        Some(s) => {
            m.push((String::from_str("stopReason"), Json::Str(s.clone())));
            proof {
                json::lemma_members_view(m@);
                assert(members_view(m@) =~= base.push(("stopReason"@, JsonV::Str(s@))));
            }
        },
        None => {},
    }
    Json::Object(m)
}

/// The JSON-RPC reply carrying `result` under the request's id (see
/// [`result_reply_view`]).
pub fn sampling_reply(request_id: Json, result: Json) -> (r: Json)
    ensures
        jview(r) == result_reply_view(jview(request_id), jview(result)),
{
    let ghost idv = jview(request_id);
    let ghost rv = jview(result);
    let mut body: Vec<(String, Json)> = Vec::new();
    body.push((String::from_str("id"), request_id));
    body.push((String::from_str("jsonrpc"), Json::Str(String::from_str("2.0"))));
    body.push((String::from_str("result"), result));
    proof {
        json::lemma_members_view(body@);
        assert(members_view(body@) =~= seq![
            ("id"@, idv),
            ("jsonrpc"@, JsonV::Str("2.0"@)),
            ("result"@, rv),
        ]);
    }
    Json::Object(body)
}

/// The reply to a served sampling request: the handler's result under the
/// request's id, or, when the handler failed with `detail`, the error
/// result (an assistant text `Error: {detail}` from model `unknown`,
/// stopped for `error`).
pub fn sampling_outcome(request_id: Json, handled: Result<SamplingCreateMessageResult, String>) -> (r:
    Json)
    ensures
        jview(r) == result_reply_view(
            jview(request_id),
            match handled {
                Ok(res) => sampling_result_view(res),
                Err(detail) => sampling_error_view(detail@),
            },
        ),
{
    let result = match handled {
        Ok(res) => sampling_result_json(&res),
        Err(detail) => {
            let e = sampling_error_result(detail.as_str());
            let j = sampling_result_json(&e);
            proof {
                reveal_strlit("Error: ");
                assert(content_json(e.content) == JsonV::Object(
                    seq![("text"@, JsonV::Str("Error: "@ + detail@)), ("type"@, JsonV::Str("text"@))],
                ));
                let sv = seq![
                    ("content"@, content_json(e.content)),
                    ("model"@, JsonV::Str(e.model@)),
                    ("role"@, JsonV::Str(e.role@)),
                ].push(("stopReason"@, JsonV::Str("error"@)));
                assert(sampling_result_view(e) == JsonV::Object(sv));
                assert(sv =~= seq![
                    (
                        "content"@,
                        JsonV::Object(
                            seq![("text"@, JsonV::Str("Error: "@ + detail@)), ("type"@, JsonV::Str("text"@))],
                        ),
                    ),
                    ("model"@, JsonV::Str("unknown"@)),
                    ("role"@, JsonV::Str("assistant"@)),
                    ("stopReason"@, JsonV::Str("error"@)),
                ]);
            }
            j
        },
    };
    sampling_reply(request_id, result)
}

/// The reply posted back for an elicitation request once the wait is over:
/// `cancel` when the question could not be shown to the user (no browser
/// channel, or it was closed) or the wait ended without an answer; the
/// user's action (with its content, for an accept) otherwise.
pub open spec fn elicitation_outcome_view(
    request_id: JsonV,
    shown: bool,
    answer: Option<(Seq<char>, Option<JsonV>)>,
) -> JsonV {
    if !shown {
        elicitation_reply_view(request_id, "cancel"@, None)
    } else {
        match answer {
            None => elicitation_reply_view(request_id, "cancel"@, None),
            Some((action, content)) => elicitation_reply_view(request_id, action, content),
        }
    }
}

/// The reply to an elicitation request (see [`elicitation_outcome_view`]):
/// `shown` tells whether the question reached the browser, `answer` is
/// the user's answer (`None` when the wait ended without one).
pub fn elicitation_outcome(
    request_id: Json,
    shown: bool,
    answer: Option<crate::elicitation::ElicitationResponse>,
) -> (r: Json)
    ensures
        jview(r) == elicitation_outcome_view(
            jview(request_id),
            shown,
            match answer {
                Some(a) => Some((a.action@, content_view(a.content))),
                None => None,
            },
        ),
{
    if !shown {
        return elicitation_reply(request_id, "cancel", None);
    }
    match answer {
        None => elicitation_reply(request_id, "cancel", None),
        Some(a) => elicitation_reply(request_id, a.action.as_str(), a.content),
    }
}

/// What the chat layer is told when a tool call starts waiting for a
/// user's answer, so it can record the question.
#[derive(Debug)]
pub struct ElicitationStartedNotification {
    pub elicitation_id: u128,
    pub content_id: u128,
    pub message_id: Option<u128>,
    pub message: String,
    pub requested_schema: Json,
    pub server: String,
}

/// The notice that a tool call waits for the user's answer to `message`:
/// the schema the server requested is bounded and stripped of the
/// platform marker first (see [`crate::elicitation::cap_requested_schema`]),
/// so neither the chat layer nor the browser ever sees it as sent.
pub fn elicitation_started(
    elicitation_id: u128,
    content_id: u128,
    message_id: Option<u128>,
    message: String,
    requested_schema: Json,
    server: String,
) -> (r: ElicitationStartedNotification)
    ensures
        r.elicitation_id == elicitation_id,
        r.content_id == content_id,
        r.message_id == message_id,
        r.message@ == message@,
        jview(r.requested_schema) == crate::elicitation::capped_schema(
            jview(requested_schema),
            crate::json_codec::json_len(jview(requested_schema)),
            crate::elicitation::decoded_object(jview(requested_schema)),
        ),
        r.server@ == server@,
{
    let capped = crate::elicitation::cap_requested_schema(requested_schema);
    ElicitationStartedNotification {
        elicitation_id,
        content_id,
        message_id,
        message,
        requested_schema: capped,
        server,
    }
}

/// The browser event announcing an elicitation: its type, ids (the
/// message id `null` when unknown), question, schema and server, members
/// in key order.
pub open spec fn elicitation_event_view(
    elicitation_id: u128,
    message_id: Option<u128>,
    message: Seq<char>,
    requested_schema: JsonV,
    server: Seq<char>,
) -> JsonV {
    JsonV::Object(
        seq![
            ("elicitation_id"@, JsonV::Str(crate::resource_link::uuid_text(elicitation_id))),
            ("message"@, JsonV::Str(message)),
            (
                "message_id"@,
                match message_id {
                    Some(m) => JsonV::Str(crate::resource_link::uuid_text(m)),
                    None => JsonV::Null,
                },
            ),
            ("requested_schema"@, requested_schema),
            ("server"@, JsonV::Str(server)),
            ("type"@, JsonV::Str("mcpElicitationRequired"@)),
        ],
    )
}

/// The data of the `mcpElicitationRequired` event sent to the browser.
pub fn elicitation_required_event(n: &ElicitationStartedNotification) -> (r: Json)
    ensures
        jview(r) == elicitation_event_view(
            n.elicitation_id,
            n.message_id,
            n.message@,
            jview(n.requested_schema),
            n.server@,
        ),
{
    let mid = match n.message_id {
        Some(m) => Json::Str(crate::resource_link::uuid_string(m)),
        None => Json::Null,
    };
    assert(jview(mid) == match n.message_id {
        Some(m) => JsonV::Str(crate::resource_link::uuid_text(m)),
        None => JsonV::Null,
    });
    let ghost schema_v = jview(n.requested_schema);
    let mut m: Vec<(String, Json)> = Vec::new();
    m.push(
        (
            String::from_str("elicitation_id"),
            Json::Str(crate::resource_link::uuid_string(n.elicitation_id)),
        ),
    );
    m.push((String::from_str("message"), Json::Str(n.message.clone())));
    m.push((String::from_str("message_id"), mid));
    m.push((String::from_str("requested_schema"), json::copy(&n.requested_schema)));
    m.push((String::from_str("server"), Json::Str(n.server.clone())));
    m.push((String::from_str("type"), Json::Str(String::from_str("mcpElicitationRequired"))));
    proof {
        json::lemma_members_view(m@);
        assert(members_view(m@) =~= seq![
            ("elicitation_id"@, JsonV::Str(crate::resource_link::uuid_text(n.elicitation_id))),
            ("message"@, JsonV::Str(n.message@)),
            ("message_id"@, jview(mid)),
            ("requested_schema"@, schema_v),
            ("server"@, JsonV::Str(n.server@)),
            ("type"@, JsonV::Str("mcpElicitationRequired"@)),
        ]);
    }
    let ghost mv = members_view(m@);
    let r = Json::Object(m);
    assert(jview(r) == JsonV::Object(mv));
    assert(mv =~= seq![
        ("elicitation_id"@, JsonV::Str(crate::resource_link::uuid_text(n.elicitation_id))),
        ("message"@, JsonV::Str(n.message@)),
        (
            "message_id"@,
            match n.message_id {
                Some(mm) => JsonV::Str(crate::resource_link::uuid_text(mm)),
                None => JsonV::Null,
            },
        ),
        ("requested_schema"@, jview(n.requested_schema)),
        ("server"@, JsonV::Str(n.server@)),
        ("type"@, JsonV::Str("mcpElicitationRequired"@)),
    ]);
    assert(jview(r) == elicitation_event_view(
        n.elicitation_id,
        n.message_id,
        n.message@,
        jview(n.requested_schema),
        n.server@,
    ));
    r
}

} // verus!
