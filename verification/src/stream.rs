//! Decisions of the streamable-HTTP MCP client: protocol-version
//! negotiation, request headers, the retry rules of a request, and the
//! reconnect state machine of the standalone GET event stream.
use crate::error::McpError;
use crate::sse;
use crate::text;
use vstd::prelude::*;
use vstd::string::StringExecFns;

verus! {

/// The protocol version this client implements.
pub const MCP_PROTOCOL_VERSION: &'static str = "2025-11-25";

/// Safety cap on `nextCursor` pagination loops.
pub const MAX_PAGINATION_PAGES: usize = 1000;

/// The protocol versions this client interoperates with, newest first.
pub open spec fn supported_versions() -> Seq<Seq<char>> {
    seq!["2025-11-25"@, "2025-06-18"@, "2025-03-26"@, "2024-11-05"@, "2024-10-07"@]
}

/// Whether `v` is one of the supported protocol versions.
pub fn is_supported_protocol_version(v: &str) -> (r: bool)
    ensures
        r == supported_versions().contains(v@),
{
    let r = text::str_eq(v, "2025-11-25") || text::str_eq(v, "2025-06-18") || text::str_eq(
        v,
        "2025-03-26",
    ) || text::str_eq(v, "2024-11-05") || text::str_eq(v, "2024-10-07");
    proof {
        if r {
            if v@ == "2025-11-25"@ {
                assert(supported_versions()[0] == v@);
            } else if v@ == "2025-06-18"@ {
                assert(supported_versions()[1] == v@);
            } else if v@ == "2025-03-26"@ {
                assert(supported_versions()[2] == v@);
            } else if v@ == "2024-11-05"@ {
                assert(supported_versions()[3] == v@);
            } else {
                assert(supported_versions()[4] == v@);
            }
        } else {
            assert forall|i: int| 0 <= i < supported_versions().len() implies supported_versions()[i]
                != v@ by {}
        }
    }
    r
}

/// Validate the `protocolVersion` a server returned from `initialize`: it
/// must be present and one of the supported versions; the negotiated
/// version is returned.
pub fn negotiate_protocol_version(negotiated: Option<&str>) -> (r: Result<String, McpError>)
    ensures
        match negotiated {
            None => r is Err,
            Some(v) => match r {
                Ok(s) => supported_versions().contains(v@) && s@ == v@,
                Err(_) => !supported_versions().contains(v@),
            },
        },
        r matches Err(e) ==> e.status == crate::error::STATUS_INTERNAL && e.message@ == match negotiated {
            None => "MCP initialize response is missing `protocolVersion`"@,
            Some(v) => "MCP server negotiated unsupported protocol version "@
                + crate::headers::debug_str(v@)
                + "; this client supports [\"2025-11-25\", \"2025-06-18\", \"2025-03-26\", \"2024-11-05\", \"2024-10-07\"]"@,
        },
{
    match negotiated {
        None => Err(
            McpError::internal_error(
                String::from_str("MCP initialize response is missing `protocolVersion`"),
            ),
        ),
        Some(v) => {
            if is_supported_protocol_version(v) {
                Ok(String::from_str(v))
            } else {
                let quoted = crate::headers::debug_quote(v);
                let msg = text::concat3(
                    "MCP server negotiated unsupported protocol version ",
                    quoted.as_str(),
                    "; this client supports [\"2025-11-25\", \"2025-06-18\", \"2025-03-26\", \"2024-11-05\", \"2024-10-07\"]",
                );
                Err(McpError::internal_error(msg))
            }
        },
    }
}

/// A request header, as `(name, value)`.
pub type Header = (String, String);

/// The view of a header list.
pub open spec fn headers_view(h: Seq<Header>) -> Seq<(Seq<char>, Seq<char>)> {
    h.map_values(|p: Header| (p.0@, p.1@))
}

/// The optional headers every MCP request after `initialize` carries: the
/// session id, the negotiated protocol version and the OAuth bearer, each
/// when known.
pub open spec fn session_headers(
    session_id: Option<Seq<char>>,
    protocol_version: Option<Seq<char>>,
    bearer: Option<Seq<char>>,
) -> Seq<(Seq<char>, Seq<char>)> {
    (match session_id {
        Some(s) => seq![("mcp-session-id"@, s)],
        None => seq![],
    }) + (match protocol_version {
        Some(v) => seq![("MCP-Protocol-Version"@, v)],
        None => seq![],
    }) + (match bearer {
        Some(b) => seq![("Authorization"@, "Bearer "@ + b)],
        None => seq![],
    })
}

/// Appends the session headers to `out`.
fn push_session_headers(
    out: &mut Vec<Header>,
    session_id: Option<&str>,
    protocol_version: Option<&str>,
    bearer: Option<&str>,
)
    ensures
        headers_view(final(out)@) == headers_view(old(out)@) + session_headers(
            match session_id {
                Some(s) => Some(s@),
                None => None,
            },
            match protocol_version {
                Some(s) => Some(s@),
                None => None,
            },
            match bearer {
                Some(s) => Some(s@),
                None => None,
            },
        ),
{
    let ghost start = headers_view(out@);
    if let Some(s) = session_id {
        out.push((String::from_str("mcp-session-id"), String::from_str(s)));
    }
    let ghost mid1 = headers_view(out@);
    if let Some(v) = protocol_version {
        out.push((String::from_str("MCP-Protocol-Version"), String::from_str(v)));
    }
    let ghost mid2 = headers_view(out@);
    if let Some(b) = bearer {
        out.push((String::from_str("Authorization"), text::concat2("Bearer ", b)));
    }
    proof {
        let sid = match session_id {
            Some(s) => Some(s@),
            None => None::<Seq<char>>,
        };
        let pv = match protocol_version {
            Some(s) => Some(s@),
            None => None::<Seq<char>>,
        };
        let br = match bearer {
            Some(s) => Some(s@),
            None => None::<Seq<char>>,
        };
        assert(headers_view(out@) =~= start + session_headers(sid, pv, br));
    }
}

/// Headers of a JSON-RPC POST (`apply_mcp_post_headers`): `Accept` for both
/// JSON and event streams, then the session headers.
pub fn mcp_post_headers(
    session_id: Option<&str>,
    protocol_version: Option<&str>,
    bearer: Option<&str>,
) -> (r: Vec<Header>)
    ensures
        headers_view(r@) == seq![("Accept"@, "application/json, text/event-stream"@)]
            + session_headers(
            match session_id {
                Some(s) => Some(s@),
                None => None,
            },
            match protocol_version {
                Some(s) => Some(s@),
                None => None,
            },
            match bearer {
                Some(s) => Some(s@),
                None => None,
            },
        ),
{
    let mut out: Vec<Header> = Vec::new();
    out.push((String::from_str("Accept"), String::from_str("application/json, text/event-stream")));
    assert(headers_view(out@) =~= seq![("Accept"@, "application/json, text/event-stream"@)]);
    push_session_headers(&mut out, session_id, protocol_version, bearer);
    out
}

/// Headers of a standalone GET event-stream request: `Accept:
/// text/event-stream`, the session headers, then `Last-Event-Id` when a
/// previous event id is known.
pub fn get_stream_headers(
    session_id: Option<&str>,
    protocol_version: Option<&str>,
    bearer: Option<&str>,
    last_event_id: Option<&str>,
) -> (r: Vec<Header>)
    ensures
        headers_view(r@) == seq![("Accept"@, "text/event-stream"@)] + session_headers(
            match session_id {
                Some(s) => Some(s@),
                None => None,
            },
            match protocol_version {
                Some(s) => Some(s@),
                None => None,
            },
            match bearer {
                Some(s) => Some(s@),
                None => None,
            },
        ) + match last_event_id {
            Some(l) => seq![("Last-Event-Id"@, l@)],
            None => seq![],
        },
{
    let mut out: Vec<Header> = Vec::new();
    out.push((String::from_str("Accept"), String::from_str("text/event-stream")));
    assert(headers_view(out@) =~= seq![("Accept"@, "text/event-stream"@)]);
    push_session_headers(&mut out, session_id, protocol_version, bearer);
    let ghost before = headers_view(out@);
    if let Some(l) = last_event_id {
        out.push((String::from_str("Last-Event-Id"), String::from_str(l)));
    }
    assert(headers_view(out@) =~= before + match last_event_id {
        Some(l) => seq![("Last-Event-Id"@, l@)],
        None => seq![],
    });
    out
}

/// Whether a failed request should be retried once after re-running
/// `initialize`: the server answered 404 (a stale session) and the request
/// was not itself `initialize`.
pub fn should_reinitialize(method: &str, error_message: &str) -> (r: bool)
    ensures
        r == (method@ != "initialize"@ && text::contains(error_message@, "HTTP 404"@)),
{
    !text::str_eq(method, "initialize") && text::str_contains(error_message, "HTTP 404")
}

/// Whether a response status asks for the OAuth `client_credentials` flow
/// followed by one retry: a 401 from a server with OAuth configured, on the
/// first attempt only.
pub fn should_retry_with_oauth(status: u16, oauth_configured: bool, already_retried: bool) -> (r:
    bool)
    ensures
        r == (status == 401 && oauth_configured && !already_retried),
{
    status == 401 && oauth_configured && !already_retried
}

/// Whether a response body is an event stream (its content type starts
/// with `text/event-stream`) rather than a single JSON document.
pub fn is_event_stream(content_type: &str) -> (r: bool)
    ensures
        r == text::starts_with(content_type@, "text/event-stream"@),
{
    text::str_starts_with(content_type, "text/event-stream")
}

/// Whether an HTTP status is a success (2xx).
pub open spec fn is_success(status: u16) -> bool {
    200 <= status < 300
}

/// What the standalone event-stream task does next.
#[derive(Debug, Clone, Copy, PartialEq, Eq)]
pub enum StreamAction {
    /// Stop the task.
    Exit,
    /// Sleep the backoff delay for reconnect number `attempt` (0-based),
    /// then reconnect.
    Reconnect { attempt: u32 },
    /// Refresh or acquire the OAuth token, then reconnect (not counted
    /// against the reconnect budget).
    RefreshOAuth,
    /// Read the open stream.
    Drain,
}

/// Reconnect bookkeeping of the standalone GET event stream.
#[derive(Debug, Clone)]
pub struct StandaloneStream {
    /// The last event id delivered, sent as `Last-Event-Id` on reconnect.
    pub last_event_id: Option<String>,
    /// Initial reconnect delay; a server `retry:` field overrides it.
    pub backoff_initial_ms: u64,
    /// Consecutive reconnects since the stream last delivered an event.
    pub reconnect_attempt: u32,
    /// Whether the current open has delivered an event yet.
    pub delivered_any_in_open: bool,
}

impl StandaloneStream {
    /// The reconnect count never exceeds the budget.
    pub open spec fn wf(&self) -> bool {
        self.reconnect_attempt <= sse::SSE_RECONNECT_MAX_RETRIES
    }

    /// A fresh stream: no event id, the default initial delay, full budget.
    pub fn new() -> (r: StandaloneStream)
        ensures
            r.wf(),
            r.last_event_id is None,
            r.backoff_initial_ms == sse::SSE_RECONNECT_INITIAL_MS,
            r.reconnect_attempt == 0,
            !r.delivered_any_in_open,
    {
        StandaloneStream {
            last_event_id: None,
            backoff_initial_ms: sse::SSE_RECONNECT_INITIAL_MS,
            reconnect_attempt: 0,
            delivered_any_in_open: false,
        }
    }

    /// Spend one reconnect from the budget, or exit when it is used up.
    pub fn retry_or_exit(&mut self) -> (r: StreamAction)
        requires
            old(self).wf(),
        ensures
            final(self).wf(),
            *final(self) == retried(*old(self)),
            r == retry_action(*old(self)),
    {
        if self.reconnect_attempt >= sse::SSE_RECONNECT_MAX_RETRIES {
            StreamAction::Exit
        } else {
            let a = self.reconnect_attempt;
            self.reconnect_attempt = a + 1;
            StreamAction::Reconnect { attempt: a }
        }
    }

    /// The GET request failed to send: reconnect within the budget, keeping
    /// the last event id and the reconnect delay.
    pub fn on_send_error(&mut self) -> (r: StreamAction)
        requires
            old(self).wf(),
        ensures
            final(self).wf(),
            *final(self) == retried(*old(self)),
            r == retry_action(*old(self)),
    {
        self.retry_or_exit()
    }

    /// The GET request was answered with `status`: 405 (no standalone
    /// stream) exits; 401 refreshes OAuth when it is configured and exits
    /// otherwise; another non-2xx reconnects within the budget, spending one
    /// reconnect; a 2xx starts draining a fresh open. Only the reconnect
    /// count and the fresh-open flag ever change.
    pub fn on_status(&mut self, status: u16, oauth_configured: bool) -> (r: StreamAction)
        requires
            old(self).wf(),
        ensures
            final(self).wf(),
            status == 405 ==> r == StreamAction::Exit && *final(self) == *old(self),
            status == 401 ==> r == (if oauth_configured {
                StreamAction::RefreshOAuth
            } else {
                StreamAction::Exit
            }) && *final(self) == *old(self),
            status != 405 && status != 401 && !is_success(status) ==> r == retry_action(*old(self))
                && *final(self) == retried(*old(self)),
            is_success(status) ==> r == StreamAction::Drain && *final(self) == fresh_open(*old(self)),
    {
        if status == 405 {
            StreamAction::Exit
        } else if status == 401 {
            if oauth_configured {
                StreamAction::RefreshOAuth
            } else {
                StreamAction::Exit
            }
        } else if !(200 <= status && status < 300) {
            self.retry_or_exit()
        } else {
            self.delivered_any_in_open = false;
            StreamAction::Drain
        }
    }

    /// One event block was read from the open stream. A non-blank block
    /// restores the full reconnect budget on the first event of an open,
    /// records its `id:` (when present) and adopts its `retry:` delay (when
    /// present).
    pub fn on_event(&mut self, event_block: &str)
        requires
            old(self).wf(),
        ensures
            final(self).wf(),
            text::trim(event_block@).len() == 0 ==> *final(self) == *old(self),
            text::trim(event_block@).len() > 0 ==> {
                &&& final(self).delivered_any_in_open
                &&& final(self).reconnect_attempt == if old(self).delivered_any_in_open {
                    old(self).reconnect_attempt
                } else {
                    0
                }
                &&& match sse::id_fold(text::lines(event_block@)) {
                    Some(id) => final(self).last_event_id matches Some(s) && s@ == id,
                    None => final(self).last_event_id == old(self).last_event_id,
                }
                &&& final(self).backoff_initial_ms == match sse::retry_fold(
                    text::lines(event_block@),
                ) {
                    Some(ms) => ms,
                    None => old(self).backoff_initial_ms,
                }
            },
    {
        let v = text::chars_of(event_block);
        let n = v.len();
        assert(v@.subrange(0, n as int) =~= event_block@);
        let (a, b) = text::trim_range(&v, 0, n);
        if a == b {
            return;
        }
        if !self.delivered_any_in_open {
            self.reconnect_attempt = 0;
            self.delivered_any_in_open = true;
        }
        if let Some(id) = sse::sse_event_id(event_block) {
            self.last_event_id = Some(id);
        }
        if let Some(ms) = sse::sse_event_retry_ms(event_block) {
            self.backoff_initial_ms = ms;
        }
    }

    /// The open stream ended: reconnect within the budget, spending one
    /// reconnect and keeping the last event id and the reconnect delay.
    pub fn on_stream_end(&mut self) -> (r: StreamAction)
        requires
            old(self).wf(),
        ensures
            final(self).wf(),
            *final(self) == retried(*old(self)),
            r == retry_action(*old(self)),
    {
        self.retry_or_exit()
    }
}


/// What a failed open (a send error, a non-2xx status other than 401 and
/// 405, or a stream that ended) does to the bookkeeping: one reconnect is
/// spent while the budget lasts; nothing else changes.
pub open spec fn retried(s: StandaloneStream) -> StandaloneStream {
    if s.reconnect_attempt >= sse::SSE_RECONNECT_MAX_RETRIES {
        s
    } else {
        StandaloneStream {
            last_event_id: s.last_event_id,
            backoff_initial_ms: s.backoff_initial_ms,
            reconnect_attempt: (s.reconnect_attempt + 1) as u32,
            delivered_any_in_open: s.delivered_any_in_open,
        }
    }
}

/// What a failed open tells the task to do: reconnect number
/// `reconnect_attempt` while the budget lasts, exit after that.
pub open spec fn retry_action(s: StandaloneStream) -> StreamAction {
    if s.reconnect_attempt >= sse::SSE_RECONNECT_MAX_RETRIES {
        StreamAction::Exit
    } else {
        StreamAction::Reconnect { attempt: s.reconnect_attempt }
    }
}

/// The bookkeeping when a 2xx answer starts a new open.
pub open spec fn fresh_open(s: StandaloneStream) -> StandaloneStream {
    StandaloneStream {
        last_event_id: s.last_event_id,
        backoff_initial_ms: s.backoff_initial_ms,
        reconnect_attempt: s.reconnect_attempt,
        delivered_any_in_open: false,
    }
}

/// The bookkeeping after `k` failed opens in a row.
pub open spec fn after_failures(s: StandaloneStream, k: nat) -> StandaloneStream
    decreases k,
{
    if k == 0 {
        s
    } else {
        retried(after_failures(s, (k - 1) as nat))
    }
}

/// Bounded reconnects: while no event is delivered, each failed open spends
/// one reconnect and keeps the last event id and the reconnect delay. From
/// a stream with `a` reconnects spent, the first `MAX - a` failures
/// reconnect and the next one exits; so a fresh stream makes at most
/// `1 + SSE_RECONNECT_MAX_RETRIES` opens without a delivered event.
pub proof fn law_reconnects_are_bounded(s: StandaloneStream, k: nat)
    requires
        s.wf(),
    ensures
        after_failures(s, k).last_event_id == s.last_event_id,
        after_failures(s, k).backoff_initial_ms == s.backoff_initial_ms,
        after_failures(s, k).wf(),
        k < sse::SSE_RECONNECT_MAX_RETRIES - s.reconnect_attempt ==> retry_action(after_failures(s, k))
            == (StreamAction::Reconnect { attempt: (s.reconnect_attempt + k) as u32 }),
        k >= sse::SSE_RECONNECT_MAX_RETRIES - s.reconnect_attempt ==> retry_action(
            after_failures(s, k),
        ) == StreamAction::Exit,
    decreases k,
{
    if k > 0 {
        law_reconnects_are_bounded(s, (k - 1) as nat);
    }
}

/// What to do with an unsolicited event read from the standalone stream.
#[derive(Debug, Clone, PartialEq, Eq)]
pub enum UnsolicitedAction {
    /// Nothing more to do (logged, or nothing to route).
    Handled,
    /// A server-to-client `elicitation/create` request to answer; carries
    /// the event's data (the JSON-RPC message).
    Elicitation(String),
    /// A server-to-client request that cannot be serviced on this stream
    /// (`sampling/createMessage`): answer it with a JSON-RPC error.
    RejectUnsupported(String),
}

/// The view of an [`UnsolicitedAction`]: its kind and data.
pub open spec fn unsolicited_view(a: UnsolicitedAction) -> (int, Seq<char>) {
    match a {
        UnsolicitedAction::Handled => (0, Seq::empty()),
        UnsolicitedAction::Elicitation(d) => (1, d@),
        UnsolicitedAction::RejectUnsupported(d) => (2, d@),
    }
}

/// How an unsolicited event block is routed: by the `method` and the
/// presence of an `id` in the JSON message its data carries.
pub open spec fn unsolicited_route(block: Seq<char>) -> (int, Seq<char>) {
    let data = sse::or_empty(sse::data_fold(text::lines(block)));
    if data.len() == 0 {
        (0, Seq::empty())
    } else {
        match sse::json_envelope(data) {
            None => (0, Seq::empty()),
            Some((method, id)) => {
                if id is Some && method == Some("sampling/createMessage"@) {
                    (2, data)
                } else if id is Some && method == Some("elicitation/create"@) {
                    (1, data)
                } else {
                    (0, Seq::empty())
                }
            },
        }
    }
}

/// Route an unsolicited event block of the standalone stream: notifications,
/// responses and unknown methods are only logged; an `elicitation/create`
/// request is handed back to be answered; a `sampling/createMessage` request
/// is handed back to be refused.
pub fn route_unsolicited_event(event_block: &str) -> (r: UnsolicitedAction)
    ensures
        unsolicited_view(r) == unsolicited_route(event_block@),
{
    let data = sse::sse_event_data(event_block);
    if data.unicode_len() == 0 {
        return UnsolicitedAction::Handled;
    }
    match sse::parse_json_envelope(data.as_str()) {
        None => UnsolicitedAction::Handled,
        Some(env) => {
            let has_id = env.id.is_some();
            match env.method {
                Some(m) => {
                    if has_id && text::str_eq(m.as_str(), "sampling/createMessage") {
                        UnsolicitedAction::RejectUnsupported(data)
                    } else if has_id && text::str_eq(m.as_str(), "elicitation/create") {
                        UnsolicitedAction::Elicitation(data)
                    } else {
                        UnsolicitedAction::Handled
                    }
                },
                None => UnsolicitedAction::Handled,
            }
        },
    }
}

} // verus!
