//! What of a tool call is stored: arguments and results with secret-keyed
//! values redacted and inline binary payloads replaced by their size, and
//! oversized values replaced by a truncation marker.
use crate::json::{self, jview, items_view, members_view, Json, JsonV};
use crate::json_codec::{json_len, serialized_len};
use crate::text;
use crate::tool_calls::{secret_key, secret_keys};
use vstd::prelude::*;
use vstd::string::StringExecFns;
use vstd::utf8::encode_utf8;

verus! {

/// Largest stored arguments, serialized (16 KiB).
pub const MAX_ARGS_BYTES: usize = 16384;

/// Largest stored result, serialized (1 MiB).
pub const MAX_RESULT_BYTES: usize = 1048576;

/// Content-block types that carry inline bytes under `data` or `blob`.
pub open spec fn binary_types() -> Seq<Seq<char>> {
    seq!["image"@, "audio"@, "resource"@, "file"@]
}

/// Whether an object is a binary content block (its `type` is one of the
/// binary types).
pub open spec fn is_binary_block(m: Seq<(Seq<char>, JsonV)>) -> bool {
    match json::member_str(m, "type"@) {
        Some(t) => binary_types().contains(t),
        None => false,
    }
}

/// What replaces an inline payload: its size in bytes.
pub open spec fn stripped_marker(s: Seq<char>) -> JsonV {
    JsonV::Object(
        seq![
            ("_bytes"@, JsonV::Number(text::decimal(encode_utf8(s).len()))),
            ("_stripped"@, JsonV::Bool(true)),
        ],
    )
}

/// A value as stored: every secret-keyed member's value is `"[redacted]"`;
/// inside a binary content block (at any depth below it) a string `data` or
/// `blob` is replaced by its stripped marker; everything else is kept.
pub open spec fn sanitized(v: JsonV, in_bin: bool) -> JsonV
    decreases v, 1int,
{
    match v {
        JsonV::Object(m) => JsonV::Object(sanitized_members(m, in_bin || is_binary_block(m))),
        JsonV::Array(a) => JsonV::Array(sanitized_items(a, in_bin)),
        _ => v,
    }
}

/// `sanitized` over array items.
pub open spec fn sanitized_items(s: Seq<JsonV>, in_bin: bool) -> Seq<JsonV>
    decreases s, 0int,
{
    if s.len() == 0 {
        Seq::empty()
    } else {
        seq![sanitized(s[0], in_bin)] + sanitized_items(s.subrange(1, s.len() as int), in_bin)
    }
}

/// `sanitized` over the members of an object (`bin`: the object is, or is
/// inside, a binary block).
pub open spec fn sanitized_members(s: Seq<(Seq<char>, JsonV)>, bin: bool) -> Seq<
    (Seq<char>, JsonV),
>
    decreases s, 0int,
{
    if s.len() == 0 {
        Seq::empty()
    } else {
        let (k, x) = s[0];
        let y = if secret_key(k) {
            JsonV::Str("[redacted]"@)
        } else if bin && (k == "data"@ || k == "blob"@) && x is Str {
            stripped_marker(x->Str_0)
        } else {
            sanitized(x, bin)
        };
        seq![(k, y)] + sanitized_members(s.subrange(1, s.len() as int), bin)
    }
}

proof fn lemma_sanitized_items(s: Seq<JsonV>, b: bool)
    ensures
        sanitized_items(s, b).len() == s.len(),
        forall|i: int| 0 <= i < s.len() ==> #[trigger] sanitized_items(s, b)[i] == sanitized(s[i], b),
    decreases s.len(),
{
    if s.len() > 0 {
        let t = s.subrange(1, s.len() as int);
        lemma_sanitized_items(t, b);
        assert forall|i: int| 0 <= i < s.len() implies #[trigger] sanitized_items(s, b)[i]
            == sanitized(s[i], b) by {
            if i > 0 {
                assert(t[i - 1] == s[i]);
            }
        }
    }
}

/// The stored value of one member.
pub open spec fn sanitized_member(k: Seq<char>, x: JsonV, bin: bool) -> JsonV {
    if secret_key(k) {
        JsonV::Str("[redacted]"@)
    } else if bin && (k == "data"@ || k == "blob"@) && x is Str {
        stripped_marker(x->Str_0)
    } else {
        sanitized(x, bin)
    }
}

proof fn lemma_sanitized_members(s: Seq<(Seq<char>, JsonV)>, b: bool)
    ensures
        sanitized_members(s, b).len() == s.len(),
        forall|i: int|
            0 <= i < s.len() ==> #[trigger] sanitized_members(s, b)[i] == (
                s[i].0,
                sanitized_member(s[i].0, s[i].1, b),
            ),
    decreases s.len(),
{
    if s.len() > 0 {
        let t = s.subrange(1, s.len() as int);
        lemma_sanitized_members(t, b);
        assert forall|i: int| 0 <= i < s.len() implies #[trigger] sanitized_members(s, b)[i] == (
            s[i].0,
            sanitized_member(s[i].0, s[i].1, b),
        ) by {
            if i > 0 {
                assert(t[i - 1] == s[i]);
            }
        }
    }
}

/// Whether an object is a binary content block.
fn binary_block(m: &Vec<(String, Json)>) -> (r: bool)
    ensures
        r == is_binary_block(members_view(m@)),
{
    match json::get_str(m, "type") {
        Some(t) => {
            let t = t.as_str();
            let r = text::str_eq(t, "image") || text::str_eq(t, "audio") || text::str_eq(
                t,
                "resource",
            ) || text::str_eq(t, "file");
            proof {
                let l = binary_types();
                if r {
                    if t@ == l[0] {
                        assert(l[0] == t@);
                    } else if t@ == l[1] {
                        assert(l[1] == t@);
                    } else if t@ == l[2] {
                        assert(l[2] == t@);
                    } else {
                        assert(l[3] == t@);
                    }
                } else {
                    assert forall|i: int| 0 <= i < l.len() implies l[i] != t@ by {}
                }
            }
            r
        },
        None => false,
    }
}

/// The stripped marker of a payload.
fn stripped(s: &String) -> (r: Json)
    ensures
        jview(r) == stripped_marker(s@),
{
    let n = s.as_str().as_bytes().len();
    let d = text::decimal_string(n as u64);
    let mut m: Vec<(String, Json)> = Vec::new();
    m.push((String::from_str("_bytes"), Json::Number(d)));
    m.push((String::from_str("_stripped"), Json::Bool(true)));
    proof {
        json::lemma_members_view(m@);
        assert(members_view(m@) =~= seq![
            ("_bytes"@, JsonV::Number(text::decimal(encode_utf8(s@).len()))),
            ("_stripped"@, JsonV::Bool(true)),
        ]);
    }
    Json::Object(m)
}

/// The stored form of `v`, inside a binary block or not.
fn sanitize_inner(v: &Json, in_bin: bool) -> (r: Json)
    ensures
        jview(r) == sanitized(jview(*v), in_bin),
    decreases v,
{
    match v {
        Json::Object(m) => {
            let bin = in_bin || binary_block(m);
            let mut out: Vec<(String, Json)> = Vec::new();
            let mut i: usize = 0;
            while i < m.len()
                invariant
                    i <= m@.len(),
                    out@.len() == i,
                    *v == Json::Object(*m),
                    bin == (in_bin || is_binary_block(members_view(m@))),
                    forall|k: int|
                        0 <= k < i ==> (#[trigger] out@[k]).0@ == m@[k].0@ && jview(out@[k].1)
                            == sanitized_member(m@[k].0@, jview(m@[k].1), bin),
                decreases m@.len() - i,
            {
                let key = &m[i].0;
                let val = &m[i].1;
                let y = if crate::tool_calls::is_secret_key(key.as_str()) {
                    Json::Str(String::from_str("[redacted]"))
                } else {
                    let is_payload_key = text::str_eq(key.as_str(), "data") || text::str_eq(
                        key.as_str(),
                        "blob",
                    );
                    match val {
                        Json::Str(s) => {
                            if bin && is_payload_key {
                                stripped(s)
                            } else {
                                Json::Str(s.clone())
                            }
                        },
                        _ => {
                            proof {
                                assert(decreases_to!(*v => (*v)->Object_0));
                                assert(decreases_to!(*m => m@));
                                assert(decreases_to!(m@ => m@[i as int]));
                                assert(decreases_to!(m@[i as int] => m@[i as int].1));
                            }
                            sanitize_inner(val, bin)
                        },
                    }
                };
                out.push((key.clone(), y));
                i = i + 1;
            }
            proof {
                json::lemma_members_view(m@);
                json::lemma_members_view(out@);
                lemma_sanitized_members(members_view(m@), bin);
                assert(members_view(out@) =~= sanitized_members(members_view(m@), bin));
            }
            Json::Object(out)
        },
        Json::Array(a) => {
            let mut out: Vec<Json> = Vec::new();
            let mut i: usize = 0;
            while i < a.len()
                invariant
                    i <= a@.len(),
                    out@.len() == i,
                    *v == Json::Array(*a),
                    forall|k: int|
                        0 <= k < i ==> jview(#[trigger] out@[k]) == sanitized(jview(a@[k]), in_bin),
                decreases a@.len() - i,
            {
                proof {
                    assert(decreases_to!(*v => (*v)->Array_0));
                    assert(decreases_to!(*a => a@));
                    assert(decreases_to!(a@ => a@[i as int]));
                }
                let x = sanitize_inner(&a[i], in_bin);
                out.push(x);
                i = i + 1;
            }
            proof {
                json::lemma_items_view(a@);
                json::lemma_items_view(out@);
                lemma_sanitized_items(items_view(a@), in_bin);
                assert(items_view(out@) =~= sanitized_items(items_view(a@), in_bin));
            }
            Json::Array(out)
        },
        _ => json::copy(v),
    }
}

/// The stored form of a value: secret-keyed values redacted, inline
/// payloads of binary blocks replaced by their size.
pub fn sanitize_value(v: &Json) -> (r: Json)
    ensures
        jview(r) == sanitized(jview(*v), false),
{
    sanitize_inner(v, false)
}

/// What replaces a value too large to store: its serialized size.
pub open spec fn truncated_marker(bytes: nat) -> JsonV {
    JsonV::Object(
        seq![("_bytes"@, JsonV::Number(text::decimal(bytes))), ("_truncated"@, JsonV::Bool(true))],
    )
}

/// Caps a stored value: when its serialized form (`serialized_bytes`
/// long) is over `max_bytes`, a truncation marker with that size takes its
/// place.
pub fn cap_to_size(v: Json, serialized_bytes: usize, max_bytes: usize) -> (r: Json)
    ensures
        jview(r) == if serialized_bytes > max_bytes {
            truncated_marker(serialized_bytes as nat)
        } else {
            jview(v)
        },
{
    if serialized_bytes > max_bytes {
        let d = text::decimal_string(serialized_bytes as u64);
        let mut m: Vec<(String, Json)> = Vec::new();
        m.push((String::from_str("_bytes"), Json::Number(d)));
        m.push((String::from_str("_truncated"), Json::Bool(true)));
        proof {
            json::lemma_members_view(m@);
            assert(members_view(m@) =~= seq![
                ("_bytes"@, JsonV::Number(text::decimal(serialized_bytes as nat))),
                ("_truncated"@, JsonV::Bool(true)),
            ]);
        }
        Json::Object(m)
    } else {
        v
    }
}

/// A stored value capped at `max` bytes of JSON text: a truncation marker
/// with the text's size takes the place of a larger one.
pub open spec fn capped_value(v: JsonV, max: nat) -> JsonV {
    if json_len(v) > max {
        truncated_marker(json_len(v))
    } else {
        v
    }
}

/// A tool call's arguments as stored: secret-keyed values redacted, inline
/// payloads replaced by their size, then capped at `MAX_ARGS_BYTES`.
pub open spec fn stored_arguments(args: JsonV) -> JsonV {
    capped_value(sanitized(args, false), MAX_ARGS_BYTES as nat)
}

/// A tool call's arguments as stored (see [`stored_arguments`]).
pub fn cap_arguments(args: &Json) -> (r: Json)
    ensures
        jview(r) == stored_arguments(jview(*args)),
{
    let redacted = sanitize_value(args);
    let bytes = serialized_len(&redacted);
    cap_to_size(redacted, bytes, MAX_ARGS_BYTES)
}

/// Every secret-keyed member, anywhere in the value, holds `"[redacted]"`.
pub open spec fn redacted(v: JsonV) -> bool
    decreases v, 1int,
{
    match v {
        JsonV::Object(m) => redacted_members(m),
        JsonV::Array(a) => redacted_items(a),
        _ => true,
    }
}

pub open spec fn redacted_items(s: Seq<JsonV>) -> bool
    decreases s, 0int,
{
    s.len() == 0 || (redacted(s[0]) && redacted_items(s.subrange(1, s.len() as int)))
}

pub open spec fn redacted_members(s: Seq<(Seq<char>, JsonV)>) -> bool
    decreases s, 0int,
{
    s.len() == 0 || ((secret_key(s[0].0) ==> s[0].1 == JsonV::Str("[redacted]"@)) && redacted(
        s[0].1,
    ) && redacted_members(s.subrange(1, s.len() as int)))
}

/// A string starting with an ASCII lower-case letter.
pub open spec fn starts_alpha(s: Seq<char>) -> bool {
    s.len() > 0 && 'a' <= s[0] && s[0] <= 'z'
}

/// The keys of the markers are not secret keys.
proof fn lemma_marker_keys_not_secret()
    ensures
        !secret_key("_bytes"@),
        !secret_key("_stripped"@),
        !secret_key("_truncated"@),
{
    reveal_strlit("_bytes");
    reveal_strlit("_stripped");
    reveal_strlit("_truncated");
    reveal_strlit("authorization");
    reveal_strlit("auth");
    reveal_strlit("bearer");
    reveal_strlit("password");
    reveal_strlit("passwd");
    reveal_strlit("secret");
    reveal_strlit("token");
    reveal_strlit("access_token");
    reveal_strlit("refresh_token");
    reveal_strlit("api_key");
    reveal_strlit("apikey");
    reveal_strlit("api-key");
    reveal_strlit("x-api-key");
    reveal_strlit("client_secret");
    reveal_strlit("private_key");
    let l = secret_keys();
    assert(starts_alpha(l[0]));
    assert(starts_alpha(l[1]));
    assert(starts_alpha(l[2]));
    assert(starts_alpha(l[3]));
    assert(starts_alpha(l[4]));
    assert(starts_alpha(l[5]));
    assert(starts_alpha(l[6]));
    assert(starts_alpha(l[7]));
    assert(starts_alpha(l[8]));
    assert(starts_alpha(l[9]));
    assert(starts_alpha(l[10]));
    assert(starts_alpha(l[11]));
    assert(starts_alpha(l[12]));
    assert(starts_alpha(l[13]));
    assert(starts_alpha(l[14]));
    assert forall|i: int| 0 <= i < l.len() implies starts_alpha(#[trigger] l[i]) by {}
    assert forall|k: Seq<char>| k.len() > 0 && k[0] == '_' implies !l.contains(
        #[trigger] text::lower(k),
    ) by {
        assert(text::lower(k)[0] == '_');
        assert forall|i: int| 0 <= i < l.len() implies l[i] != text::lower(k) by {
            assert(starts_alpha(l[i]));
        }
    }
    assert("_bytes"@[0] == '_');
    assert("_stripped"@[0] == '_');
    assert("_truncated"@[0] == '_');
}

proof fn lemma_sanitized_items_redacted(s: Seq<JsonV>, b: bool)
    ensures
        redacted_items(sanitized_items(s, b)),
    decreases s, 0int,
{
    if s.len() > 0 {
        law_sanitize_redacts_secrets(s[0], b);
        lemma_sanitized_items_redacted(s.subrange(1, s.len() as int), b);
        assert(sanitized_items(s, b).subrange(1, sanitized_items(s, b).len() as int)
            =~= sanitized_items(s.subrange(1, s.len() as int), b));
    }
}

proof fn lemma_sanitized_members_redacted(s: Seq<(Seq<char>, JsonV)>, b: bool)
    ensures
        redacted_members(sanitized_members(s, b)),
    decreases s, 0int,
{
    if s.len() > 0 {
        let (k, x) = s[0];
        if !secret_key(k) {
            if b && (k == "data"@ || k == "blob"@) && x is Str {
                lemma_marker_keys_not_secret();
                let mk = stripped_marker(x->Str_0);
                let ms = mk->Object_0;
                let tail = seq![("_stripped"@, JsonV::Bool(true))];
                assert(tail.subrange(1, 1) =~= Seq::<(Seq<char>, JsonV)>::empty());
                assert(redacted_members(Seq::<(Seq<char>, JsonV)>::empty()));
                assert(redacted(tail[0].1));
                assert(redacted_members(tail));
                assert(ms.subrange(1, ms.len() as int) =~= tail);
                assert(redacted(ms[0].1));
                assert(redacted_members(ms));
                assert(redacted(mk));
            } else {
                law_sanitize_redacts_secrets(x, b);
            }
            assert(redacted(sanitized_member(k, x, b)));
        } else {
            assert(redacted(JsonV::Str("[redacted]"@)));
        }
        let r = sanitized_members(s, b);
        let rest = sanitized_members(s.subrange(1, s.len() as int), b);
        assert(r == seq![(k, sanitized_member(k, x, b))] + rest);
        lemma_sanitized_members_redacted(s.subrange(1, s.len() as int), b);
        assert(r.subrange(1, r.len() as int) =~= rest);
        assert(r[0] == (k, sanitized_member(k, x, b)));
    } else {
        assert(sanitized_members(s, b).len() == 0);
    }
}

/// After sanitizing, every secret-keyed value anywhere in the stored value
/// is `"[redacted]"`.
pub proof fn law_sanitize_redacts_secrets(v: JsonV, in_bin: bool)
    ensures
        redacted(sanitized(v, in_bin)),
    decreases v, 1int,
{
    match v {
        JsonV::Object(m) => lemma_sanitized_members_redacted(m, in_bin || is_binary_block(m)),
        JsonV::Array(a) => lemma_sanitized_items_redacted(a, in_bin),
        _ => {},
    }
}

/// Outside binary blocks, a member that is not secret keeps a string value
/// as it is (a short `{"data": "OK"}` survives).
pub proof fn law_plain_strings_kept(k: Seq<char>, s: Seq<char>)
    requires
        !secret_key(k),
    ensures
        sanitized_member(k, JsonV::Str(s), false) == JsonV::Str(s),
{
}

} // verus!
