//! Session decisions of the session manager: which servers may be dialed,
//! the context headers of a built-in server, and which pooled sessions the
//! idle reaper closes.
use crate::error::{McpError, STATUS_BAD_REQUEST};
use crate::headers::{field_lookup, fields_view, StrFields};
use crate::models::McpServer;
use crate::tool_calls::{McpCallContext, McpToolCallSource};
use crate::object::{keys_sorted, object_insert};
use crate::resource_link::{uuid_string, uuid_text};
use crate::text;
use vstd::prelude::*;
use vstd::string::StringExecFns;

verus! {

/// A disabled server gets no session (`400 server_disabled`).
pub fn check_enabled(server: &McpServer) -> (r: Result<(), McpError>)
    ensures
        r is Ok <==> server.enabled,
        r matches Err(e) ==> e.status == STATUS_BAD_REQUEST && e.code@ == "server_disabled"@
            && e.message@ == "Server is disabled"@,
{
    if !server.enabled {
        return Err(McpError::bad_request("server_disabled", String::from_str("Server is disabled")));
    }
    Ok(())
}

/// The headers of a built-in server for one call: its configured headers
/// with the conversation and message ids set (when known), and whether a
/// bearer token still has to be minted (neither `authorization` nor
/// `Authorization` is set).
pub fn builtin_context_headers(
    headers: StrFields,
    conversation_id: Option<u128>,
    message_id: Option<u128>,
) -> (r: (StrFields, bool))
    requires
        keys_sorted(fields_view(headers@)),
    ensures
        keys_sorted(fields_view(r.0@)),
        forall|k: Seq<char>|
            #[trigger] field_lookup(fields_view(r.0@), k) == if k == "x-conversation-id"@
                && conversation_id is Some {
                Some(Some(uuid_text(conversation_id->0)))
            } else if k == "x-message-id"@ && message_id is Some {
                Some(Some(uuid_text(message_id->0)))
            } else {
                field_lookup(fields_view(headers@), k)
            },
        r.1 == (field_lookup(fields_view(r.0@), "authorization"@) is None && field_lookup(
            fields_view(r.0@),
            "Authorization"@,
        ) is None),
{
    proof {
        reveal_strlit("x-conversation-id");
        reveal_strlit("x-message-id");
    }
    let ghost h0 = fields_view(headers@);
    let mut h = headers;
    if let Some(cid) = conversation_id {
        object_insert(&mut h, String::from_str("x-conversation-id"), Some(uuid_string(cid)));
    }
    let ghost h1 = fields_view(h@);
    assert forall|k: Seq<char>| #[trigger] field_lookup(h1, k) == if k == "x-conversation-id"@
        && conversation_id is Some {
        Some(Some(uuid_text(conversation_id->0)))
    } else {
        field_lookup(h0, k)
    } by {}
    if let Some(mid) = message_id {
        object_insert(&mut h, String::from_str("x-message-id"), Some(uuid_string(mid)));
    }
    let ghost h2 = fields_view(h@);
    assert("x-conversation-id"@ != "x-message-id"@) by {
        assert("x-conversation-id"@.len() != "x-message-id"@.len());
    }
    assert forall|k: Seq<char>| #[trigger] field_lookup(h2, k) == if k == "x-conversation-id"@
        && conversation_id is Some {
        Some(Some(uuid_text(conversation_id->0)))
    } else if k == "x-message-id"@ && message_id is Some {
        Some(Some(uuid_text(message_id->0)))
    } else {
        field_lookup(h0, k)
    } by {
        assert(field_lookup(h1, k) == if k == "x-conversation-id"@ && conversation_id is Some {
            Some(Some(uuid_text(conversation_id->0)))
        } else {
            field_lookup(h0, k)
        });
    }
    let needs = lookup_missing(&h, "authorization") && lookup_missing(&h, "Authorization");
    (h, needs)
}

/// Whether no member is named `key`.
fn lookup_missing(f: &StrFields, key: &str) -> (r: bool)
    ensures
        r == (field_lookup(fields_view(f@), key@) is None),
{
    let ghost fv = fields_view(f@);
    let mut i: usize = 0;
    assert(fv.skip(0) =~= fv);
    while i < f.len()
        invariant
            i <= f@.len(),
            fv == fields_view(f@),
            field_lookup(fv, key@) == field_lookup(fv.skip(i as int), key@),
        decreases f@.len() - i,
    {
        assert(fv.skip(i as int)[0] == crate::headers::field_view(f@[i as int]));
        if text::str_eq(f[i].0.as_str(), key) {
            return false;
        }
        assert(fv.skip(i as int).drop_first() =~= fv.skip(i + 1));
        i = i + 1;
    }
    assert(fv.skip(i as int).len() == 0);
    true
}

/// Adds the minted bearer token as `Authorization`.
pub fn with_bearer(headers: StrFields, token: &str) -> (r: StrFields)
    requires
        keys_sorted(fields_view(headers@)),
    ensures
        keys_sorted(fields_view(r@)),
        forall|k: Seq<char>|
            #[trigger] field_lookup(fields_view(r@), k) == if k == "Authorization"@ {
                Some(Some("Bearer "@ + token@))
            } else {
                field_lookup(fields_view(headers@), k)
            },
{
    let mut h = headers;
    object_insert(&mut h, String::from_str("Authorization"), Some(text::concat2("Bearer ", token)));
    h
}

/// How minting a built-in server's bearer token went: the user has no
/// token version (the user is unknown), minting failed with an error, or
/// it gave the token.
#[derive(Debug)]
pub enum MintOutcome {
    UnknownUser,
    Failed(McpError),
    Minted(String),
}

/// Completes a built-in server's headers (as [`builtin_context_headers`]
/// left them) once the token is known: an unknown user is refused
/// (`401 USER_NOT_FOUND`), a minting error is returned as it is, and a
/// minted token is set as `Authorization: Bearer {token}`, every other
/// header kept.
pub fn finish_builtin_headers(headers: StrFields, mint: MintOutcome) -> (r: Result<StrFields, McpError>)
    requires
        keys_sorted(fields_view(headers@)),
    ensures
        match mint {
            MintOutcome::UnknownUser => r matches Err(e) && e.status == crate::error::STATUS_UNAUTHORIZED
                && e.code@ == "USER_NOT_FOUND"@ && e.message@ == "User not found"@,
            MintOutcome::Failed(err) => r matches Err(e) && e == err,
            MintOutcome::Minted(token) => r matches Ok(h) && keys_sorted(fields_view(h@)) && forall|
                k: Seq<char>,
            |
                #[trigger] field_lookup(fields_view(h@), k) == if k == "Authorization"@ {
                    Some(Some("Bearer "@ + token@))
                } else {
                    field_lookup(fields_view(headers@), k)
                },
        },
{
    match mint {
        MintOutcome::UnknownUser => Err(
            McpError::new(
                crate::error::STATUS_UNAUTHORIZED,
                "USER_NOT_FOUND",
                String::from_str("User not found"),
            ),
        ),
        MintOutcome::Failed(e) => Err(e),
        MintOutcome::Minted(token) => Ok(with_bearer(headers, token.as_str())),
    }
}

/// The servers whose pooled session has been idle longer than
/// `max_idle_seconds`, in order.
pub open spec fn idle_past(s: Seq<(u128, u64)>, max_idle_seconds: u64) -> Seq<u128>
    decreases s.len(),
{
    if s.len() == 0 {
        Seq::empty()
    } else {
        let prev = idle_past(s.drop_last(), max_idle_seconds);
        if s.last().1 > max_idle_seconds {
            prev.push(s.last().0)
        } else {
            prev
        }
    }
}

/// The sessions the idle reaper closes, from each pooled session's idle
/// time in seconds.
pub fn sessions_to_reap(idle: &Vec<(u128, u64)>, max_idle_seconds: u64) -> (r: Vec<u128>)
    ensures
        r@ == idle_past(idle@, max_idle_seconds),
{
    let mut out: Vec<u128> = Vec::new();
    let mut j: usize = 0;
    while j < idle.len()
        invariant
            j <= idle@.len(),
            out@ == idle_past(idle@.take(j as int), max_idle_seconds),
        decreases idle@.len() - j,
    {
        assert(idle@.take(j + 1).drop_last() =~= idle@.take(j as int));
        assert(idle@.take(j + 1).last() == idle@[j as int]);
        if idle[j].1 > max_idle_seconds {
            out.push(idle[j].0);
        }
        j = j + 1;
    }
    assert(idle@.take(j as int) =~= idle@);
    out
}

/// The recording context of a session opened for a user's call: the
/// call's owner, conversation, branch, message, tool use and source, the
/// server's name and whether it is built in; the workflow run and review
/// classification are stamped later by the callers that have them.
pub fn session_call_context(
    server: &McpServer,
    user_id: u128,
    conversation_id: Option<u128>,
    branch_id: Option<u128>,
    message_id: Option<u128>,
    tool_use_id: Option<String>,
    source: McpToolCallSource,
) -> (r: McpCallContext)
    ensures
        r.user_id == Some(user_id),
        r.conversation_id == conversation_id,
        r.branch_id == branch_id,
        r.message_id == message_id,
        r.tool_use_id == tool_use_id,
        r.source == source,
        r.server_name@ == server.name@,
        r.is_built_in == server.is_built_in,
        r.workflow_run_id is None,
        r.review_classification is None,
{
    McpCallContext {
        user_id: Some(user_id),
        conversation_id,
        branch_id,
        message_id,
        tool_use_id,
        source,
        server_name: server.name.clone(),
        is_built_in: server.is_built_in,
        workflow_run_id: None,
        review_classification: None,
    }
}

} // verus!
