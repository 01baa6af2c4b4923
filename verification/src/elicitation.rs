//! Elicitation: a server asks the user for input through a form. The
//! requested schema is bounded and stripped of the marker reserved for the
//! platform's own questions; an answer is accepted only from the user the
//! question belongs to.
use crate::error::{McpError, STATUS_BAD_REQUEST, STATUS_FORBIDDEN, STATUS_NOT_FOUND};
use crate::json::{self, jview, members_view, Json, JsonV};
use crate::json_codec::{decode_json, json_decoded, json_len, serialized_len};
use crate::registry::{self, ElicitationRegistry};
use crate::runtime_types::RespondToElicitationResponse;
use crate::text;
use vstd::prelude::*;
use vstd::string::StringExecFns;

verus! {

/// Largest requested schema accepted, serialized (1 MiB).
pub const MAX_REQUESTED_SCHEMA_BYTES: usize = 1048576;

/// The root key that turns a schema into the platform's own decision form;
/// only the platform may set it, after the cap.
pub open spec fn ask_user_marker() -> Seq<char> {
    "x-ziee-askuser"@
}

/// The members of `m` without those named `k`.
pub open spec fn without_member(m: Seq<(Seq<char>, JsonV)>, k: Seq<char>) -> Seq<(Seq<char>, JsonV)>
    decreases m.len(),
{
    if m.len() == 0 {
        Seq::empty()
    } else {
        let prev = without_member(m.drop_last(), k);
        if m.last().0 == k {
            prev
        } else {
            prev.push(m.last())
        }
    }
}

/// No member of `m` is named `k`.
pub open spec fn lacks(m: Seq<(Seq<char>, JsonV)>, k: Seq<char>) -> bool {
    forall|i: int| 0 <= i < m.len() ==> #[trigger] m[i].0 != k
}

proof fn lemma_without_member(m: Seq<(Seq<char>, JsonV)>, k: Seq<char>)
    ensures
        lacks(without_member(m, k), k),
    decreases m.len(),
{
    if m.len() > 0 {
        lemma_without_member(m.drop_last(), k);
    }
}

/// The error schema that replaces a requested schema: an empty form with
/// the reason.
pub open spec fn error_schema(reason: Seq<char>) -> JsonV {
    JsonV::Object(
        seq![
            ("properties"@, JsonV::Object(Seq::empty())),
            ("type"@, JsonV::Str("object"@)),
            ("x-ziee-error"@, JsonV::Str(reason)),
        ],
    )
}

/// The reason given for an oversized schema.
pub open spec fn oversized_reason() -> Seq<char> {
    "requested schema exceeded the 1 MiB limit and was dropped"@
}

/// The reason given for a schema string that is no JSON object.
pub open spec fn undecodable_reason() -> Seq<char> {
    "the MCP server sent `requestedSchema` as a string that is not a valid JSON object, so no form could be built"@
}

/// The schema handed to the client: an oversized one (`serialized` bytes
/// over the cap) is dropped for an error schema; a schema sent as a JSON
/// string is replaced by the object it encodes (`decoded`), or by an error
/// schema when it encodes none; then the platform marker is removed from
/// the root.
pub open spec fn capped_schema(schema: JsonV, serialized: nat, decoded: Option<JsonV>) -> JsonV {
    if serialized > MAX_REQUESTED_SCHEMA_BYTES {
        error_schema(oversized_reason())
    } else {
        let s = match schema {
            JsonV::Str(_) => match decoded {
                Some(d) => Some(d),
                None => None,
            },
            _ => Some(schema),
        };
        match s {
            None => error_schema(undecodable_reason()),
            Some(JsonV::Object(m)) => JsonV::Object(without_member(m, ask_user_marker())),
            Some(other) => other,
        }
    }
}

fn error_schema_value(reason: &str) -> (r: Json)
    ensures
        jview(r) == error_schema(reason@),
{
    let mut m: Vec<(String, Json)> = Vec::new();
    m.push((String::from_str("properties"), Json::Object(Vec::new())));
    m.push((String::from_str("type"), Json::Str(String::from_str("object"))));
    m.push((String::from_str("x-ziee-error"), Json::Str(String::from_str(reason))));
    proof {
        json::lemma_members_view(m@);
        json::lemma_members_view(Seq::<(String, Json)>::empty());
        assert(members_view(Seq::<(String, Json)>::empty()) =~= Seq::<(Seq<char>, JsonV)>::empty());
        assert(members_view(m@) =~= error_schema(reason@)->Object_0);
    }
    Json::Object(m)
}

/// The members of an object without those named `key`.
fn remove_member(m: Vec<(String, Json)>, key: &str) -> (r: Vec<(String, Json)>)
    ensures
        members_view(r@) == without_member(members_view(m@), key@),
{
    proof {
        json::lemma_members_view(m@);
    }
    let ghost orig = m@;
    let ghost mv = members_view(m@);
    let mut out: Vec<(String, Json)> = Vec::new();
    let mut rest = m;
    while rest.len() > 0
        invariant
            rest@.len() <= orig.len(),
            rest@ == orig.skip(orig.len() - rest@.len()),
            mv == members_view(orig),
            mv.len() == orig.len(),
            forall|k: int| 0 <= k < orig.len() ==> #[trigger] mv[k] == (orig[k].0@, jview(orig[k].1)),
            members_view(out@) == without_member(mv.take(orig.len() - rest@.len()), key@),
        decreases rest@.len(),
    {
        let ghost idx: int = orig.len() - rest@.len();
        proof {
            assert(mv.take(idx + 1).drop_last() =~= mv.take(idx));
            assert(mv.take(idx + 1).last() == mv[idx]);
            assert(rest@[0] == orig[idx]);
        }
        let (k, v) = rest.remove(0);
        proof {
            assert(rest@ =~= orig.skip(idx + 1));
        }
        if text::str_eq(k.as_str(), key) {
        } else {
            let ghost before = out@;
            out.push((k, v));
            proof {
                json::lemma_members_view(before);
                json::lemma_members_view(out@);
                assert(members_view(out@) =~= members_view(before).push(mv[idx]));
            }
        }
    }
    assert(mv.take(orig.len() as int) =~= mv);
    out
}

/// What a schema sent as a JSON string encodes, when that is an object;
/// `None` for a string that encodes anything else, and for a schema that is
/// no string.
pub open spec fn decoded_object(schema: JsonV) -> Option<JsonV> {
    match schema {
        JsonV::Str(s) => match json_decoded(s) {
            Some(JsonV::Object(m)) => Some(JsonV::Object(m)),
            _ => None,
        },
        _ => None,
    }
}

/// Bounds a requested schema as it arrived and strips the platform marker
/// from it: the schema is measured first, serialized, and an oversized one
/// is dropped before anything decodes it; a schema sent as a JSON string is
/// then decoded into the object it encodes (see [`capped_schema`]).
pub fn cap_requested_schema(schema: Json) -> (r: Json)
    ensures
        jview(r) == capped_schema(
            jview(schema),
            json_len(jview(schema)),
            decoded_object(jview(schema)),
        ),
{
    let bytes = serialized_len(&schema);
    let decoded = if bytes > MAX_REQUESTED_SCHEMA_BYTES {
        None
    } else {
        match &schema {
            Json::Str(s) => match decode_json(s.as_str()) {
                Some(Json::Object(m)) => Some(Json::Object(m)),
                _ => None,
            },
            _ => None,
        }
    };
    cap_measured_schema(schema, bytes, decoded)
}

/// Bounds a requested schema and strips the platform marker from it (see
/// [`capped_schema`]), given its serialized length (`serialized_bytes`)
/// and, for a schema sent as a string, the object it decodes to
/// (`decoded`).
pub fn cap_measured_schema(schema: Json, serialized_bytes: usize, decoded: Option<Json>) -> (r:
    Json)
    ensures
        jview(r) == capped_schema(
            jview(schema),
            serialized_bytes as nat,
            match decoded {
                Some(d) => Some(jview(d)),
                None => None,
            },
        ),
{
    if serialized_bytes > MAX_REQUESTED_SCHEMA_BYTES {
        return error_schema_value("requested schema exceeded the 1 MiB limit and was dropped");
    }
    let s = match schema {
        Json::Str(_) => match decoded {
            Some(d) => d,
            None => {
                return error_schema_value(
                    "the MCP server sent `requestedSchema` as a string that is not a valid JSON object, so no form could be built",
                );
            },
        },
        other => other,
    };
    match s {
        Json::Object(m) => Json::Object(remove_member(m, "x-ziee-askuser")),
        other => other,
    }
}

/// No schema handed to the client carries the platform marker at its
/// root.
pub proof fn law_capped_schema_has_no_marker(schema: JsonV, serialized: nat, decoded: Option<JsonV>)
    ensures
        capped_schema(schema, serialized, decoded) matches JsonV::Object(m) ==> lacks(
            m,
            ask_user_marker(),
        ),
{
    reveal_strlit("x-ziee-askuser");
    reveal_strlit("properties");
    reveal_strlit("type");
    reveal_strlit("x-ziee-error");
    let r = capped_schema(schema, serialized, decoded);
    if serialized > MAX_REQUESTED_SCHEMA_BYTES {
        let m = error_schema(oversized_reason())->Object_0;
        assert(m[2].0 != ask_user_marker()) by {
            assert(m[2].0.len() != ask_user_marker().len());
        }
        assert(m[0].0 != ask_user_marker()) by {
            assert(m[0].0.len() != ask_user_marker().len());
        }
        assert(m[1].0 != ask_user_marker()) by {
            assert(m[1].0.len() != ask_user_marker().len());
        }
    } else {
        let s = match schema {
            JsonV::Str(_) => match decoded {
                Some(d) => Some(d),
                None => None,
            },
            _ => Some(schema),
        };
        match s {
            None => {
                let m = error_schema(undecodable_reason())->Object_0;
                assert(m[2].0 != ask_user_marker()) by {
                    assert(m[2].0.len() != ask_user_marker().len());
                }
                assert(m[0].0 != ask_user_marker()) by {
                    assert(m[0].0.len() != ask_user_marker().len());
                }
                assert(m[1].0 != ask_user_marker()) by {
                    assert(m[1].0.len() != ask_user_marker().len());
                }
            },
            Some(JsonV::Object(m)) => lemma_without_member(m, ask_user_marker()),
            Some(other) => {
                if other is Object {
                    lemma_without_member(other->Object_0, ask_user_marker());
                }
            },
        }
    }
}

/// The user's answer to an elicitation, as handed to the waiting call.
#[derive(Debug)]
pub struct ElicitationResponse {
    /// `accept`, `decline` or `cancel`.
    pub action: String,
    /// The field values; only an `accept` carries them.
    pub content: Option<Json>,
}

/// The stored status of an answered elicitation.
pub open spec fn status_for(action: Seq<char>) -> Seq<char> {
    if action == "accept"@ {
        "accepted"@
    } else if action == "decline"@ {
        "declined"@
    } else {
        "cancelled"@
    }
}

/// The stored status of an answered elicitation: `accepted`, `declined`,
/// or `cancelled`.
pub fn status_for_action(action: &str) -> (r: &'static str)
    ensures
        r@ == status_for(action@),
{
    if text::str_eq(action, "accept") {
        "accepted"
    } else if text::str_eq(action, "decline") {
        "declined"
    } else {
        "cancelled"
    }
}

/// What remains to do once an answer is accepted: deliver `response`
/// through `reply`, and record `status` (and, for an `accept`, the content)
/// on the content row, if there is one.
#[derive(Debug)]
pub struct ElicitationDelivery<S> {
    pub reply: Option<S>,
    pub response: ElicitationResponse,
    pub content_id: Option<u128>,
    pub status: &'static str,
}

/// Whether `action` is one of the three answers.
pub open spec fn valid_action(a: Seq<char>) -> bool {
    a == "accept"@ || a == "decline"@ || a == "cancel"@
}

/// Whether an answer carries content (a value other than `null`).
pub open spec fn carries_content(content: Option<Json>) -> bool {
    content matches Some(j) && !(j is Null)
}

/// Whether an answer's content is refused: an `accept` with content that
/// does not decode to an object.
pub open spec fn content_refused(
    action: Seq<char>,
    content: Option<Json>,
    coerced: Option<Result<Json, String>>,
) -> bool {
    action == "accept"@ && carries_content(content) && !(coerced matches Some(Ok(_)))
}

/// The view of optional content.
pub open spec fn content_view(c: Option<Json>) -> Option<JsonV> {
    match c {
        Some(j) => Some(jview(j)),
        None => None,
    }
}

/// Accepts a user's answer to a pending elicitation. The action must be
/// `accept`, `decline` or `cancel` (`400 INVALID_ACTION`); the elicitation
/// must be pending (`404`) and bound to `user_id` (`403`, also while it is
/// not yet bound); an `accept` with content must carry a JSON object
/// (`coerced`: the object the content decodes to, or why it does not —
/// `400 INVALID_CONTENT`). On success the elicitation is taken out of the
/// registry, so it can be answered only once.
pub fn respond_to_elicitation<S>(
    registry: &mut ElicitationRegistry<S>,
    elicitation_id: u128,
    user_id: u128,
    action: &str,
    content: Option<Json>,
    coerced: Option<Result<Json, String>>,
) -> (r: Result<(RespondToElicitationResponse, ElicitationDelivery<S>), McpError>)
    ensures
        !valid_action(action@) ==> (r matches Err(e) && e.status == STATUS_BAD_REQUEST && e.code@
            == "INVALID_ACTION"@),
        valid_action(action@) && registry::owner_check(old(registry).view(), elicitation_id, user_id)
            is None ==> (r matches Err(e) && e.status == STATUS_NOT_FOUND),
        valid_action(action@) && registry::owner_check(old(registry).view(), elicitation_id, user_id)
            == Some(false) ==> (r matches Err(e) && e.status == STATUS_FORBIDDEN),
        r is Ok ==> valid_action(action@) && registry::owner_check(
            old(registry).view(),
            elicitation_id,
            user_id,
        ) == Some(true),
        valid_action(action@) && registry::owner_check(old(registry).view(), elicitation_id, user_id)
            == Some(true) ==> (r is Ok <==> !content_refused(action@, content, coerced)),
        valid_action(action@) && registry::owner_check(old(registry).view(), elicitation_id, user_id)
            == Some(true) && content_refused(action@, content, coerced) ==> (r matches Err(e)
            && e.status == STATUS_BAD_REQUEST && e.code@ == "INVALID_CONTENT"@ && e.message@ == match coerced {
                Some(Err(m)) => m@,
                _ => "content must be a JSON object"@,
            }),
        r matches Ok((resp, d)) ==> {
            &&& resp.success
            &&& d.reply is Some
            &&& d.response.action@ == action@
            &&& d.status@ == status_for(action@)
            &&& content_view(d.response.content) == if action@ == "accept"@ && carries_content(
                content,
            ) {
                content_view(Some(coerced->Some_0->Ok_0))
            } else {
                content_view(content)
            }
            &&& (final(registry).view(), true, d.content_id) == registry::taken(
                old(registry).view(),
                elicitation_id,
            )
        },
        r is Err ==> final(registry).view() == old(registry).view(),
{
    let valid = text::str_eq(action, "accept") || text::str_eq(action, "decline") || text::str_eq(
        action,
        "cancel",
    );
    if !valid {
        return Err(
            McpError::bad_request(
                "INVALID_ACTION",
                String::from_str("action must be one of: accept, decline, cancel"),
            ),
        );
    }
    match registry.owner_matches(elicitation_id, user_id) {
        None => {
            return Err(McpError::not_found("Elicitation request"));
        },
        Some(false) => {
            return Err(
                McpError::new(
                    STATUS_FORBIDDEN,
                    "FORBIDDEN",
                    String::from_str("Not authorized to respond to this elicitation"),
                ),
            );
        },
        Some(true) => {},
    }
    let is_accept = text::str_eq(action, "accept");
    let has_content = match &content {
        Some(Json::Null) => false,
        Some(_) => true,
        None => false,
    };
    let final_content = if is_accept && has_content {
        match coerced {
            Some(Ok(v)) => Some(v),
            Some(Err(msg)) => {
                return Err(McpError::bad_request("INVALID_CONTENT", msg));
            },
            None => {
                return Err(
                    McpError::bad_request(
                        "INVALID_CONTENT",
                        String::from_str("content must be a JSON object"),
                    ),
                );
            },
        }
    } else {
        content
    };
    let (found, content_id, reply) = registry.respond(elicitation_id);
    if !found {
        return Err(McpError::not_found("Elicitation request"));
    }
    let status = status_for_action(action);
    let response = ElicitationResponse { action: String::from_str(action), content: final_content };
    Ok((
        RespondToElicitationResponse { success: true },
        ElicitationDelivery { reply, response, content_id, status },
    ))
}

} // verus!
