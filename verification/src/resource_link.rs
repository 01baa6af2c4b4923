//! `resource_link` blocks of tool results: which links are referenced,
//! ingested from a host path or fetched, and the rule that no raw
//! `ziee://<host path>` ever reaches a client or the model.
use crate::headers::{self, field_view, fields_view, StrFields};
use crate::json::{self, jview, items_view, members_view, Json, JsonV};
use crate::text;
use vstd::prelude::*;
use vstd::string::StringExecFns;

verus! {

/// Whether `uri` is `ziee://` followed by an absolute host path (a path
/// starting with `/`), the sensitive dialect; `ziee://workflow-runs/...`
/// handles are relative and are not.
pub open spec fn host_path(uri: Seq<char>) -> bool {
    text::starts_with(uri, "ziee://"@) && text::starts_with(uri.skip(7), "/"@)
}

/// Whether `uri` is a `ziee://` absolute host path.
pub fn is_ziee_host_path(uri: &str) -> (r: bool)
    ensures
        r == host_path(uri@),
{
    let v = text::chars_of(uri);
    let n = v.len();
    let p = text::chars_of("ziee://");
    let slash = text::chars_of("/");
    proof {
        reveal_strlit("ziee://");
    }
    if !text::range_starts_with(&v, 0, n, &p) {
        assert(v@.subrange(0, n as int) =~= uri@);
        return false;
    }
    assert(v@.subrange(0, n as int) =~= uri@);
    assert(v@.subrange(7, n as int) =~= uri@.skip(7));
    text::range_starts_with(&v, 7, n, &slash)
}

/// A value with every host-path string blanked (emptied).
pub open spec fn scrubbed(v: JsonV) -> JsonV
    decreases v, 1int,
{
    match v {
        JsonV::Str(s) => if host_path(s) {
            JsonV::Str(Seq::empty())
        } else {
            v
        },
        JsonV::Array(a) => JsonV::Array(scrubbed_items(a)),
        JsonV::Object(m) => JsonV::Object(scrubbed_members(m)),
        _ => v,
    }
}

/// `scrubbed` over array items.
pub open spec fn scrubbed_items(s: Seq<JsonV>) -> Seq<JsonV>
    decreases s, 0int,
{
    if s.len() == 0 {
        Seq::empty()
    } else {
        seq![scrubbed(s[0])] + scrubbed_items(s.subrange(1, s.len() as int))
    }
}

/// `scrubbed` over object members' values.
pub open spec fn scrubbed_members(s: Seq<(Seq<char>, JsonV)>) -> Seq<(Seq<char>, JsonV)>
    decreases s, 0int,
{
    if s.len() == 0 {
        Seq::empty()
    } else {
        seq![(s[0].0, scrubbed(s[0].1))] + scrubbed_members(s.subrange(1, s.len() as int))
    }
}

proof fn lemma_scrubbed_items(s: Seq<JsonV>)
    ensures
        scrubbed_items(s).len() == s.len(),
        forall|i: int| 0 <= i < s.len() ==> #[trigger] scrubbed_items(s)[i] == scrubbed(s[i]),
    decreases s.len(),
{
    if s.len() > 0 {
        let t = s.subrange(1, s.len() as int);
        lemma_scrubbed_items(t);
        assert forall|i: int| 0 <= i < s.len() implies #[trigger] scrubbed_items(s)[i] == scrubbed(
            s[i],
        ) by {
            if i > 0 {
                assert(t[i - 1] == s[i]);
            }
        }
    }
}

proof fn lemma_scrubbed_members(s: Seq<(Seq<char>, JsonV)>)
    ensures
        scrubbed_members(s).len() == s.len(),
        forall|i: int|
            0 <= i < s.len() ==> #[trigger] scrubbed_members(s)[i] == (s[i].0, scrubbed(s[i].1)),
    decreases s.len(),
{
    if s.len() > 0 {
        let t = s.subrange(1, s.len() as int);
        lemma_scrubbed_members(t);
        assert forall|i: int| 0 <= i < s.len() implies #[trigger] scrubbed_members(s)[i] == (
            s[i].0,
            scrubbed(s[i].1),
        ) by {
            if i > 0 {
                assert(t[i - 1] == s[i]);
            }
        }
    }
}

/// A scrubbed copy of `v`.
fn scrub_copy(v: &Json) -> (r: Json)
    ensures
        jview(r) == scrubbed(jview(*v)),
    decreases v,
{
    match v {
        Json::Str(s) => {
            if is_ziee_host_path(s.as_str()) {
                Json::Str(String::new())
            } else {
                Json::Str(s.clone())
            }
        },
        Json::Array(a) => {
            let mut out: Vec<Json> = Vec::new();
            let mut i: usize = 0;
            while i < a.len()
                invariant
                    i <= a@.len(),
                    out@.len() == i,
                    *v == Json::Array(*a),
                    forall|k: int| 0 <= k < i ==> jview(#[trigger] out@[k]) == scrubbed(jview(a@[k])),
                decreases a@.len() - i,
            {
                proof {
                    assert(decreases_to!(*v => (*v)->Array_0));
                    assert(decreases_to!(*a => a@));
                    assert(decreases_to!(a@ => a@[i as int]));
                }
                let x = scrub_copy(&a[i]);
                out.push(x);
                i = i + 1;
            }
            proof {
                json::lemma_items_view(a@);
                json::lemma_items_view(out@);
                lemma_scrubbed_items(items_view(a@));
                assert(items_view(out@) =~= scrubbed_items(items_view(a@)));
            }
            Json::Array(out)
        },
        Json::Object(m) => {
            let mut out: Vec<(String, Json)> = Vec::new();
            let mut i: usize = 0;
            while i < m.len()
                invariant
                    i <= m@.len(),
                    out@.len() == i,
                    *v == Json::Object(*m),
                    forall|k: int|
                        0 <= k < i ==> (#[trigger] out@[k]).0@ == m@[k].0@ && jview(out@[k].1)
                            == scrubbed(jview(m@[k].1)),
                decreases m@.len() - i,
            {
                proof {
                    assert(decreases_to!(*v => (*v)->Object_0));
                    assert(decreases_to!(*m => m@));
                    assert(decreases_to!(m@ => m@[i as int]));
                    assert(decreases_to!(m@[i as int] => m@[i as int].1));
                }
                let x = scrub_copy(&m[i].1);
                out.push((m[i].0.clone(), x));
                i = i + 1;
            }
            proof {
                json::lemma_members_view(m@);
                json::lemma_members_view(out@);
                lemma_scrubbed_members(members_view(m@));
                assert(members_view(out@) =~= scrubbed_members(members_view(m@)));
            }
            Json::Object(out)
        },
        _ => json::copy(v),
    }
}

/// Blanks every `ziee://<host path>` string anywhere in `value`, leaving
/// every other value (`ziee://workflow-runs/...` handles among them) as it
/// is.
pub fn scrub_ziee_in_value(value: &mut Json)
    ensures
        jview(*final(value)) == scrubbed(jview(*old(value))),
{
    let r = scrub_copy(value);
    *value = r;
}

/// No string anywhere in the value is a host path.
pub open spec fn clean(v: JsonV) -> bool
    decreases v, 1int,
{
    match v {
        JsonV::Str(s) => !host_path(s),
        JsonV::Array(a) => clean_items(a),
        JsonV::Object(m) => clean_members(m),
        _ => true,
    }
}

pub open spec fn clean_items(s: Seq<JsonV>) -> bool
    decreases s, 0int,
{
    s.len() == 0 || (clean(s[0]) && clean_items(s.subrange(1, s.len() as int)))
}

pub open spec fn clean_members(s: Seq<(Seq<char>, JsonV)>) -> bool
    decreases s, 0int,
{
    s.len() == 0 || (clean(s[0].1) && clean_members(s.subrange(1, s.len() as int)))
}

proof fn lemma_scrub_items_clean(s: Seq<JsonV>)
    ensures
        clean_items(scrubbed_items(s)),
    decreases s, 0int,
{
    if s.len() > 0 {
        law_scrub_leaves_no_host_path(s[0]);
        lemma_scrub_items_clean(s.subrange(1, s.len() as int));
        assert(scrubbed_items(s).subrange(1, scrubbed_items(s).len() as int) =~= scrubbed_items(
            s.subrange(1, s.len() as int),
        ));
    }
}

proof fn lemma_scrub_members_clean(s: Seq<(Seq<char>, JsonV)>)
    ensures
        clean_members(scrubbed_members(s)),
    decreases s, 0int,
{
    if s.len() > 0 {
        law_scrub_leaves_no_host_path(s[0].1);
        lemma_scrub_members_clean(s.subrange(1, s.len() as int));
        assert(scrubbed_members(s).subrange(1, scrubbed_members(s).len() as int)
            =~= scrubbed_members(s.subrange(1, s.len() as int)));
    }
}

/// After a scrub, no host path is left anywhere in the value.
pub proof fn law_scrub_leaves_no_host_path(v: JsonV)
    ensures
        clean(scrubbed(v)),
    decreases v, 1int,
{
    match v {
        JsonV::Str(s) => {
            if host_path(s) {
                assert(!text::starts_with(Seq::<char>::empty(), "ziee://"@)) by {
                    reveal_strlit("ziee://");
                }
            }
        },
        JsonV::Array(a) => lemma_scrub_items_clean(a),
        JsonV::Object(m) => lemma_scrub_members_clean(m),
        _ => {},
    }
}

/// A string that is not a host path survives a scrub unchanged.
pub proof fn law_scrub_keeps_other_strings(s: Seq<char>)
    requires
        !host_path(s),
    ensures
        scrubbed(JsonV::Str(s)) == JsonV::Str(s),
{
}


/// A `resource_link` content block of a tool result.
#[derive(Debug, Clone, PartialEq, Eq)]
pub struct ResourceLink {
    pub uri: String,
    pub name: Option<String>,
    pub mime_type: Option<String>,
    pub size: Option<i64>,
    /// `Some(true)` when the file is already in the file store.
    pub is_saved: Option<bool>,
    pub file_id: Option<u128>,
    pub version_id: Option<u128>,
    pub version: Option<i32>,
}

/// The view of a link.
pub struct LinkV {
    pub uri: Seq<char>,
    pub name: Option<Seq<char>>,
    pub mime_type: Option<Seq<char>>,
    pub size: Option<i64>,
    pub is_saved: Option<bool>,
    pub file_id: Option<u128>,
    pub version_id: Option<u128>,
    pub version: Option<i32>,
}

/// The view of a link.
pub open spec fn link_view(l: ResourceLink) -> LinkV {
    LinkV {
        uri: l.uri@,
        name: crate::auth::opt_view(l.name),
        mime_type: crate::auth::opt_view(l.mime_type),
        size: l.size,
        is_saved: l.is_saved,
        file_id: l.file_id,
        version_id: l.version_id,
        version: l.version,
    }
}

/// What a UUID text denotes, if it is one (`Uuid::parse_str`).
pub uninterp spec fn uuid_value(s: Seq<char>) -> Option<u128>;

/// `Uuid::parse_str(s)`, read back with `as_u128`: the result is
/// `uuid_value(s@)`.
#[verifier::external_body]
fn parse_uuid(s: &str) -> (r: Option<u128>)
    ensures
        r == uuid_value(s@),
{
    match uuid::Uuid::parse_str(s) {
        Ok(u) => Some(u.as_u128()),
        Err(_) => None,
    }
}

/// The lower-case hex digit of `d` (below 16).
pub open spec fn hex_digit(d: nat) -> char {
    if d < 10 {
        (48 + d) as char
    } else {
        (87 + d) as char
    }
}

/// The 32 lower-case hex digits of `u`, most significant first.
pub open spec fn hex32(u: u128) -> Seq<char> {
    Seq::new(
        32,
        |i: int| hex_digit((u as nat / vstd::arithmetic::power2::pow2((4 * (31 - i)) as nat)) % 16),
    )
}

/// The hyphenated lower-case text of a UUID (`Uuid::to_string`): its 32
/// hex digits in groups of 8, 4, 4, 4 and 12, joined by `-`.
pub open spec fn uuid_text(u: u128) -> Seq<char> {
    let h = hex32(u);
    h.subrange(0, 8) + seq!['-'] + h.subrange(8, 12) + seq!['-'] + h.subrange(12, 16) + seq!['-']
        + h.subrange(16, 20) + seq!['-'] + h.subrange(20, 32)
}

/// `Uuid::from_u128(u).to_string()`: the result is `uuid_text(u)`.
#[verifier::external_body]
pub(crate) fn uuid_string(u: u128) -> (r: String)
    ensures
        r@ == uuid_text(u),
{
    uuid::Uuid::from_u128(u).to_string()
}

/// The integer a JSON number denotes when it is one that fits an `i64`.
pub open spec fn number_i64(v: Option<JsonV>) -> Option<i64> {
    match v {
        Some(JsonV::Number(t)) => text::parse_i64(t),
        _ => None,
    }
}

/// The boolean of a JSON value, when it is one.
pub open spec fn json_bool(v: Option<JsonV>) -> Option<bool> {
    match v {
        Some(JsonV::Bool(b)) => Some(b),
        _ => None,
    }
}

/// The UUID a string member holds, when it holds one.
pub open spec fn member_uuid(m: Seq<(Seq<char>, JsonV)>, key: Seq<char>) -> Option<u128> {
    match json::member_str(m, key) {
        Some(s) => uuid_value(s),
        None => None,
    }
}

/// The link a content block denotes: `None` when it is not an object with
/// a string `uri`; otherwise each field read from its member when that has
/// the right type (`mimeType` for the MIME type; `version` truncated to
/// 32 bits).
pub open spec fn parsed_link(c: JsonV) -> Option<LinkV> {
    match c {
        JsonV::Object(m) => match json::member_str(m, "uri"@) {
            Some(uri) => Some(
                LinkV {
                    uri,
                    name: json::member_str(m, "name"@),
                    mime_type: json::member_str(m, "mimeType"@),
                    size: number_i64(json::member(m, "size"@)),
                    is_saved: json_bool(json::member(m, "is_saved"@)),
                    file_id: member_uuid(m, "file_id"@),
                    version_id: member_uuid(m, "version_id"@),
                    version: match number_i64(json::member(m, "version"@)) {
                        Some(n) => Some(n as i32),
                        None => None,
                    },
                },
            ),
            None => None,
        },
        _ => None,
    }
}

fn opt_string(o: Option<&String>) -> (r: Option<String>)
    ensures
        crate::auth::opt_view(r) == match o {
            Some(s) => Some(s@),
            None => None,
        },
{
    match o {
        Some(s) => Some(s.clone()),
        None => None,
    }
}

/// The `i64` of a number member, if it is one.
fn member_i64(m: &Vec<(String, Json)>, key: &str) -> (r: Option<i64>)
    ensures
        r == number_i64(json::member(members_view(m@), key@)),
{
    match json::get_member(m, key) {
        Some(Json::Number(t)) => {
            let v = text::chars_of(t.as_str());
            let n = v.len();
            assert(v@.subrange(0, n as int) =~= t@);
            text::parse_i64_range(&v, 0, n)
        },
        _ => None,
    }
}

/// The UUID of a string member, if it holds one.
fn member_uuid_of(m: &Vec<(String, Json)>, key: &str) -> (r: Option<u128>)
    ensures
        r == member_uuid(members_view(m@), key@),
{
    match json::get_str(m, key) {
        Some(s) => parse_uuid(s.as_str()),
        None => None,
    }
}

/// Reads a `resource_link` content block: `None` when it has no string
/// `uri`.
pub fn parse_resource_link_block(content: &Json) -> (r: Option<ResourceLink>)
    ensures
        match r {
            Some(l) => parsed_link(jview(*content)) == Some(link_view(l)),
            None => parsed_link(jview(*content)) is None,
        },
{
    let m = match content {
        Json::Object(m) => m,
        _ => {
            return None;
        },
    };
    let uri = match json::get_str(m, "uri") {
        Some(u) => u.clone(),
        None => {
            return None;
        },
    };
    let is_saved = match json::get_member(m, "is_saved") {
        Some(Json::Bool(b)) => Some(*b),
        _ => None,
    };
    let version = match member_i64(m, "version") {
        Some(n) => Some(n as i32),
        None => None,
    };
    Some(
        ResourceLink {
            uri,
            name: opt_string(json::get_str(m, "name")),
            mime_type: opt_string(json::get_str(m, "mimeType")),
            size: member_i64(m, "size"),
            is_saved,
            file_id: member_uuid_of(m, "file_id"),
            version_id: member_uuid_of(m, "version_id"),
            version,
        },
    )
}

/// Whether `server_id` is one of the built-in servers trusted to emit
/// `ziee://` host paths (the in-process, first-party servers listed in
/// `trusted`); an external or user-configured server never is.
pub fn is_trusted_resource_emitter(server_id: u128, trusted: &Vec<u128>) -> (r: bool)
    ensures
        r == trusted@.contains(server_id),
{
    let mut i: usize = 0;
    while i < trusted.len()
        invariant
            i <= trusted@.len(),
            forall|j: int| 0 <= j < i ==> trusted@[j] != server_id,
        decreases trusted@.len() - i,
    {
        if trusted[i] == server_id {
            assert(trusted@[i as int] == server_id);
            return true;
        }
        i = i + 1;
    }
    false
}

/// What to do with one link.
#[derive(Debug, Clone, PartialEq, Eq)]
pub enum LinkAction {
    /// Already in the file store: report `(name, uri)`, do not save again.
    Reference { name: String, uri: String },
    /// Nothing to save.
    Skip,
    /// Read this host path (once confined under the allowed roots) and
    /// save it as `display_name`.
    IngestHostPath { path: String, display_name: String },
    /// Download the link's URI and save it as `display_name`.
    Fetch { display_name: String },
}

/// The view of an action: `(kind, first, second)`.
pub open spec fn action_view(a: LinkAction) -> (int, Seq<char>, Seq<char>) {
    match a {
        LinkAction::Reference { name, uri } => (0, name@, uri@),
        LinkAction::Skip => (1, Seq::empty(), Seq::empty()),
        LinkAction::IngestHostPath { path, display_name } => (2, path@, display_name@),
        LinkAction::Fetch { display_name } => (3, display_name@, Seq::empty()),
    }
}

/// A link's display name: its name, or `file`.
pub open spec fn display_name(l: LinkV) -> Seq<char> {
    match l.name {
        Some(n) => n,
        None => "file"@,
    }
}

/// The action for a link: an already-saved link is referenced unless its
/// URI is a host path; a `ziee://` link is ingested only when its path is
/// absolute and the emitting server is trusted; any other link is fetched
/// when a token secret is at hand.
pub open spec fn link_action(l: LinkV, trusted: bool, has_secret: bool) -> (int, Seq<char>, Seq<char>) {
    if l.is_saved == Some(true) {
        if !host_path(l.uri) {
            (0, display_name(l), l.uri)
        } else {
            (1, Seq::empty(), Seq::empty())
        }
    } else if text::starts_with(l.uri, "ziee://"@) {
        if !text::starts_with(l.uri.skip(7), "/"@) || !trusted {
            (1, Seq::empty(), Seq::empty())
        } else {
            (2, l.uri.skip(7), display_name(l))
        }
    } else if !has_secret {
        (1, Seq::empty(), Seq::empty())
    } else {
        (3, display_name(l), Seq::empty())
    }
}

fn display_name_of(l: &ResourceLink) -> (r: String)
    ensures
        r@ == display_name(link_view(*l)),
{
    match &l.name {
        Some(n) => n.clone(),
        None => String::from_str("file"),
    }
}

/// Decides what to do with one link of a tool result.
pub fn plan_link(link: &ResourceLink, trusted_emitter: bool, has_jwt_secret: bool) -> (r: LinkAction)
    ensures
        action_view(r) == link_action(link_view(*link), trusted_emitter, has_jwt_secret),
{
    if link.is_saved == Some(true) {
        if !is_ziee_host_path(link.uri.as_str()) {
            return LinkAction::Reference { name: display_name_of(link), uri: link.uri.clone() };
        }
        return LinkAction::Skip;
    }
    let v = text::chars_of(link.uri.as_str());
    let n = v.len();
    let p = text::chars_of("ziee://");
    let slash = text::chars_of("/");
    proof {
        reveal_strlit("ziee://");
    }
    assert(v@.subrange(0, n as int) =~= link.uri@);
    if text::range_starts_with(&v, 0, n, &p) {
        assert(v@.subrange(7, n as int) =~= link.uri@.skip(7));
        if !text::range_starts_with(&v, 7, n, &slash) || !trusted_emitter {
            return LinkAction::Skip;
        }
        let path = text::string_of_range(&v, 7, n);
        return LinkAction::IngestHostPath { path, display_name: display_name_of(link) };
    }
    if !has_jwt_secret {
        return LinkAction::Skip;
    }
    LinkAction::Fetch { display_name: display_name_of(link) }
}

/// The MIME type of a download: the part of its `Content-Type` before any
/// `;`, trimmed.
pub fn content_type_mime(content_type: Option<&str>) -> (r: Option<String>)
    ensures
        match content_type {
            None => r is None,
            Some(ct) => r matches Some(m) && m@ == text::trim(text::split(ct@, ';')[0]),
        },
{
    match content_type {
        None => None,
        Some(ct) => {
            let v = text::chars_of(ct);
            let n = v.len();
            assert(v@.subrange(0, n as int) =~= ct@);
            let end = match text::find_char(&v, 0, n, ';') {
                Some(k) => k,
                None => n,
            };
            proof {
                text::lemma_index_of_bounds(ct@, ';');
                if text::index_of(ct@, ';') >= 0 {
                    assert(text::split(ct@, ';')[0] == ct@.take(text::index_of(ct@, ';')));
                    assert(ct@.take(end as int) =~= v@.subrange(0, end as int));
                } else {
                    assert(text::split(ct@, ';')[0] == ct@);
                }
            }
            let (a, b) = text::trim_range(&v, 0, end);
            Some(text::string_of_range(&v, a, b))
        },
    }
}

/// A file saved from a link.
#[derive(Debug, Clone, PartialEq, Eq)]
pub struct PersistedArtifact {
    /// The index of the link it was saved from.
    pub link_idx: usize,
    pub file_id: u128,
    pub version: i32,
    pub version_id: u128,
    pub filename: String,
    pub mime_type: Option<String>,
    pub size: i64,
}

/// The files saved and the links referenced by a persist run.
#[derive(Debug, Clone, PartialEq, Eq)]
pub struct PersistOutcome {
    pub saved: Vec<PersistedArtifact>,
    pub referenced: Vec<(String, String)>,
}

/// A link with a saved file's ids stamped on it; a host-path URI is
/// replaced by the file's API path.
pub open spec fn stamp(l: LinkV, a: PersistedArtifact) -> LinkV {
    LinkV {
        uri: if host_path(l.uri) {
            "/api/files/"@ + uuid_text(a.file_id)
        } else {
            l.uri
        },
        file_id: Some(a.file_id),
        version: Some(a.version),
        version_id: Some(a.version_id),
        ..l
    }
}

/// The links after stamping each saved artifact, in order, onto the link
/// it came from.
pub open spec fn stamped(ls: Seq<LinkV>, arts: Seq<PersistedArtifact>) -> Seq<LinkV>
    decreases arts.len(),
{
    if arts.len() == 0 {
        ls
    } else {
        let prev = stamped(ls, arts.drop_last());
        let a = arts.last();
        if a.link_idx < prev.len() {
            prev.update(a.link_idx as int, stamp(prev[a.link_idx as int], a))
        } else {
            prev
        }
    }
}

/// A link whose URI is still a host path gets an empty URI.
pub open spec fn blanked(l: LinkV) -> LinkV {
    if host_path(l.uri) {
        LinkV { uri: Seq::empty(), ..l }
    } else {
        l
    }
}

/// The view of a list of links.
pub open spec fn links_view(ls: Seq<ResourceLink>) -> Seq<LinkV> {
    ls.map_values(|l: ResourceLink| link_view(l))
}

proof fn lemma_stamped_len(ls: Seq<LinkV>, arts: Seq<PersistedArtifact>)
    ensures
        stamped(ls, arts).len() == ls.len(),
    decreases arts.len(),
{
    if arts.len() > 0 {
        lemma_stamped_len(ls, arts.drop_last());
    }
}

/// The saved files as a persist run records them: each from a link of the
/// `n` links, in link order, at most one per link.
pub open spec fn saved_in_order(arts: Seq<PersistedArtifact>, n: nat) -> bool {
    &&& forall|k: int| 0 <= k < arts.len() ==> (#[trigger] arts[k]).link_idx < n
    &&& forall|i: int, j: int| 0 <= i < j < arts.len() ==> (#[trigger] arts[i]).link_idx < (
        #[trigger] arts[j]).link_idx
}

/// The link a saved file came from carries that file's id, version and
/// version id once the saved files are stamped on the links.
proof fn lemma_stamped_carries_ids(ls: Seq<LinkV>, arts: Seq<PersistedArtifact>, k: int)
    requires
        saved_in_order(arts, ls.len()),
        0 <= k < arts.len(),
    ensures
        stamped(ls, arts).len() == ls.len(),
        stamped(ls, arts)[arts[k].link_idx as int].file_id == Some(arts[k].file_id),
        stamped(ls, arts)[arts[k].link_idx as int].version == Some(arts[k].version),
        stamped(ls, arts)[arts[k].link_idx as int].version_id == Some(arts[k].version_id),
    decreases arts.len(),
{
    lemma_stamped_len(ls, arts);
    let prev = arts.drop_last();
    lemma_stamped_len(ls, prev);
    let last = arts.len() - 1;
    if k < last {
        assert(saved_in_order(prev, ls.len())) by {
            assert forall|i: int| 0 <= i < prev.len() implies (#[trigger] prev[i]).link_idx
                < ls.len() by {
                assert(prev[i] == arts[i]);
            }
            assert forall|i: int, j: int| 0 <= i < j < prev.len() implies (
            #[trigger] prev[i]).link_idx < (#[trigger] prev[j]).link_idx by {
                assert(prev[i] == arts[i] && prev[j] == arts[j]);
            }
        }
        lemma_stamped_carries_ids(ls, prev, k);
        assert(prev[k] == arts[k]);
        assert(arts[k].link_idx < arts[last].link_idx);
    } else {
        assert(arts[last].link_idx < ls.len());
    }
}

/// The link a saved file came from carries that file's id, version and
/// version id once the links are finalized, whenever the saved files are
/// recorded as a persist run records them (see [`saved_in_order`]).
pub proof fn law_saved_links_carry_their_file(ls: Seq<LinkV>, arts: Seq<PersistedArtifact>, k: int)
    requires
        saved_in_order(arts, ls.len()),
        0 <= k < arts.len(),
    ensures
        arts[k].link_idx < ls.len(),
        stamped(ls, arts).map_values(|l: LinkV| blanked(l))[arts[k].link_idx as int].file_id
            == Some(arts[k].file_id),
        stamped(ls, arts).map_values(|l: LinkV| blanked(l))[arts[k].link_idx as int].version
            == Some(arts[k].version),
        stamped(ls, arts).map_values(|l: LinkV| blanked(l))[arts[k].link_idx as int].version_id
            == Some(arts[k].version_id),
{
    lemma_stamped_carries_ids(ls, arts, k);
}

/// Writes each saved file back onto the link it came from (its file id,
/// version and version id; a host-path URI becomes `/api/files/{id}`), then
/// blanks every URI that is still a host path, so no raw host path leaves.
pub fn finalize_links(links: &mut Vec<ResourceLink>, saved: &Vec<PersistedArtifact>)
    ensures
        links_view(final(links)@) == stamped(links_view(old(links)@), saved@).map_values(
            |l: LinkV| blanked(l),
        ),
        saved_in_order(saved@, old(links)@.len()) ==> forall|k: int|
            0 <= k < saved@.len() ==> {
                let l = #[trigger] final(links)@[saved@[k].link_idx as int];
                &&& l.file_id == Some(saved@[k].file_id)
                &&& l.version == Some(saved@[k].version)
                &&& l.version_id == Some(saved@[k].version_id)
            },
{
    let ghost start = links_view(links@);
    let mut j: usize = 0;
    while j < saved.len()
        invariant
            j <= saved@.len(),
            links_view(links@) == stamped(start, saved@.take(j as int)),
            links@.len() == start.len(),
        decreases saved@.len() - j,
    {
        assert(saved@.take(j + 1).drop_last() =~= saved@.take(j as int));
        assert(saved@.take(j + 1).last() == saved@[j as int]);
        let art = &saved[j];
        let idx = art.link_idx;
        if idx < links.len() {
            let old_link = &links[idx];
            let host = is_ziee_host_path(old_link.uri.as_str());
            let uri = if host {
                let id = uuid_string(art.file_id);
                text::concat2("/api/files/", id.as_str())
            } else {
                old_link.uri.clone()
            };
            let new_link = ResourceLink {
                uri,
                name: match &old_link.name {
                    Some(x) => Some(x.clone()),
                    None => None,
                },
                mime_type: match &old_link.mime_type {
                    Some(x) => Some(x.clone()),
                    None => None,
                },
                size: old_link.size,
                is_saved: old_link.is_saved,
                file_id: Some(art.file_id),
                version_id: Some(art.version_id),
                version: Some(art.version),
            };
            let ghost before = links_view(links@);
            links.set(idx, new_link);
            assert(links_view(links@) =~= before.update(idx as int, stamp(before[idx as int], *art)));
        }
        j = j + 1;
    }
    assert(saved@.take(j as int) =~= saved@);
    let ghost mid = links_view(links@);
    let mut i: usize = 0;
    while i < links.len()
        invariant
            i <= links@.len(),
            links@.len() == mid.len(),
            forall|k: int| 0 <= k < i ==> #[trigger] link_view(links@[k]) == blanked(mid[k]),
            forall|k: int| i <= k < links@.len() ==> #[trigger] link_view(links@[k]) == mid[k],
        decreases links@.len() - i,
    {
        assert(link_view(links@[i as int]) == mid[i as int]);
        let ghost before = links@;
        if is_ziee_host_path(links[i].uri.as_str()) {
            let l = &links[i];
            let new_link = ResourceLink {
                uri: String::new(),
                name: match &l.name {
                    Some(x) => Some(x.clone()),
                    None => None,
                },
                mime_type: match &l.mime_type {
                    Some(x) => Some(x.clone()),
                    None => None,
                },
                size: l.size,
                is_saved: l.is_saved,
                file_id: l.file_id,
                version_id: l.version_id,
                version: l.version,
            };
            links.set(i, new_link);
            assert(link_view(links@[i as int]) == blanked(mid[i as int]));
        } else {
            assert(link_view(links@[i as int]) == blanked(mid[i as int]));
        }
        assert(forall|k: int| 0 <= k < links@.len() && k != i ==> links@[k] == before[k]);
        i = i + 1;
    }
    assert(links_view(links@) =~= mid.map_values(|l: LinkV| blanked(l)));
    proof {
        if saved_in_order(saved@, old(links)@.len()) {
            assert forall|k: int| 0 <= k < saved@.len() implies {
                let l = #[trigger] links@[saved@[k].link_idx as int];
                &&& l.file_id == Some(saved@[k].file_id)
                &&& l.version == Some(saved@[k].version)
                &&& l.version_id == Some(saved@[k].version_id)
            } by {
                law_saved_links_carry_their_file(links_view(old(links)@), saved@, k);
                assert(links_view(links@)[saved@[k].link_idx as int] == link_view(
                    links@[saved@[k].link_idx as int],
                ));
            }
        }
    }
}

/// Once finalized, no link's URI is a host path.
pub proof fn law_finalized_links_hide_host_paths(
    ls: Seq<LinkV>,
    arts: Seq<PersistedArtifact>,
    i: int,
)
    requires
        0 <= i < ls.len(),
    ensures
        !host_path(stamped(ls, arts).map_values(|l: LinkV| blanked(l))[i].uri),
{
    lemma_stamped_len(ls, arts);
    let l = stamped(ls, arts)[i];
    if host_path(l.uri) {
        assert(!text::starts_with(Seq::<char>::empty(), "ziee://"@)) by {
            reveal_strlit("ziee://");
        }
    }
}

/// A link saved from a host path is rewritten to its file's API path and
/// carries the file's ids.
pub proof fn law_saved_host_link_points_at_file(l: LinkV, a: PersistedArtifact)
    requires
        host_path(l.uri),
    ensures
        blanked(stamp(l, a)).uri == "/api/files/"@ + uuid_text(a.file_id),
        blanked(stamp(l, a)).file_id == Some(a.file_id),
{
    let s = "/api/files/"@ + uuid_text(a.file_id);
    assert(!text::starts_with(s, "ziee://"@)) by {
        reveal_strlit("ziee://");
        reveal_strlit("/api/files/");
        assert(s[0] == '/');
        if text::starts_with(s, "ziee://"@) {
            assert(s.subrange(0, 7)[0] == s[0]);
            assert("ziee://"@[0] == 'z');
        }
    }
}

/// The headers a download from an external server carries: its
/// configured headers (`headers`, when an object) whose value is a string
/// and whose name and value the HTTP stack accepts, as they are (no
/// expansion, no trimming).
pub open spec fn fetch_header_map(h: Seq<(Seq<char>, Option<Seq<char>>)>) -> Map<
    Seq<char>,
    Seq<Seq<u8>>,
>
    decreases h.len(),
{
    if h.len() == 0 {
        Map::empty()
    } else {
        let prev = fetch_header_map(h.drop_last());
        let (k, v) = h.last();
        match v {
            Some(val) => if headers::header_name_ok(k) && headers::header_value_ok(val) {
                prev.insert(text::lower(k), seq![vstd::utf8::encode_utf8(val)])
            } else {
                prev
            },
            None => prev,
        }
    }
}

/// The download headers of an external server's link.
pub fn configured_fetch_headers(server_headers: Option<&StrFields>) -> (r: reqwest::header::HeaderMap)
    requires
        match server_headers {
            Some(h) => h@.len() < 6554,
            None => true,
        },
    ensures
        headers::header_map_view(r) == match server_headers {
            Some(h) => fetch_header_map(fields_view(h@)),
            None => headers::no_headers(),
        },
{
    let mut map = headers::header_map_new();
    let h = match server_headers {
        None => {
            return map;
        },
        Some(h) => h,
    };
    let ghost hv = fields_view(h@);
    let mut j: usize = 0;
    while j < h.len()
        invariant
            j <= h@.len() < 6554,
            hv == fields_view(h@),
            headers::header_map_view(map) == fetch_header_map(hv.take(j as int)),
            headers::header_map_view(map).dom().finite(),
            headers::header_map_view(map).dom().len() <= j,
        decreases h@.len() - j,
    {
        assert(hv.take(j + 1).drop_last() =~= hv.take(j as int));
        assert(hv.take(j + 1).last() == field_view(h@[j as int]));
        if let Some(val) = &h[j].1 {
            match headers::header_name_lowercase(h[j].0.as_str()) {
                Some(name) => {
                    if headers::header_value_accepts(val.as_str()) {
                        proof {
                            assert forall|i: int| 0 <= i < name@.len() implies text::lower(name@)[i]
                                == name@[i] by {
                                assert(headers::is_tchar(h@[j as int].0@[i]));
                            }
                            assert(text::lower(name@) =~= name@);
                            assert forall|i: int| 0 <= i < name@.len() implies headers::is_tchar(
                                name@[i],
                            ) by {
                                assert(headers::is_tchar(h@[j as int].0@[i]));
                            }
                        }
                        headers::header_map_insert(&mut map, name.as_str(), val.as_str());
                    }
                },
                None => {},
            }
        }
        j = j + 1;
    }
    assert(hv.take(j as int) =~= hv);
    map
}

/// The part of `s` after its last `c` (all of `s` when it has none), as
/// `rsplit(c).next()` yields it.
pub open spec fn after_last(s: Seq<char>, c: char) -> Seq<char>
    decreases s.len(),
{
    if s.len() == 0 {
        s
    } else if s.last() == c {
        Seq::empty()
    } else {
        after_last(s.drop_last(), c).push(s.last())
    }
}

/// The Unicode lower-casing of a string (`str::to_lowercase`).
pub uninterp spec fn lower_text(s: Seq<char>) -> Seq<char>;

/// `str::to_lowercase`: the result is `lower_text(s@)`.
#[verifier::external_body]
fn to_lowercase(s: &str) -> (r: String)
    ensures
        r@ == lower_text(s@),
{
    s.to_lowercase()
}

/// The canonical extension of a file name, under which its blob is
/// stored: the text after the last `.`, lower-cased.
pub open spec fn extension(name: Seq<char>) -> Seq<char> {
    lower_text(after_last(name, '.'))
}

/// The canonical extension of a file name (see [`extension`]).
pub fn extension_of(name: &str) -> (r: String)
    ensures
        r@ == extension(name@),
{
    let v = text::chars_of(name);
    let n = v.len();
    let mut k: usize = n;
    assert(v@.take(n as int) =~= v@);
    assert(v@.skip(n as int) =~= Seq::<char>::empty());
    assert(after_last(v@, '.') + Seq::<char>::empty() =~= after_last(v@, '.'));
    while k > 0 && v[k - 1] != '.'
        invariant
            k <= n == v@.len(),
            v@ == name@,
            after_last(v@, '.') == after_last(v@.take(k as int), '.') + v@.skip(k as int),
        decreases k,
    {
        assert(v@.take(k as int).drop_last() =~= v@.take(k - 1));
        assert(v@.skip(k - 1) =~= seq![v@[k - 1]] + v@.skip(k as int));
        assert(after_last(v@.take(k as int), '.') =~= after_last(v@.take(k - 1), '.').push(v@[k - 1]));
        k = k - 1;
    }
    assert(after_last(v@.take(k as int), '.') =~= Seq::<char>::empty());
    let tail = text::string_of_range(&v, k, n);
    assert(v@.subrange(k as int, n as int) =~= v@.skip(k as int));
    to_lowercase(tail.as_str())
}

/// The MIME type `mime_guess` gives an extension, if it knows one.
pub uninterp spec fn ext_mime(ext: Seq<char>) -> Option<Seq<char>>;

/// `mime_guess::from_ext(ext).first()`, as text: the result is
/// `ext_mime(ext@)`.
#[verifier::external_body]
fn guess_mime(ext: &str) -> (r: Option<String>)
    ensures
        crate::auth::opt_view(r) == ext_mime(ext@),
{
    mime_guess::from_ext(ext).first().map(|m| m.to_string())
}

/// The MIME type a saved artifact is recorded with: the download's own
/// `Content-Type` type when there is one, else the type its extension
/// suggests.
pub fn artifact_mime(display_name: &str, content_type_mime: Option<String>) -> (r: Option<String>)
    ensures
        crate::auth::opt_view(r) == match content_type_mime {
            Some(m) => Some(m@),
            None => ext_mime(extension(display_name@)),
        },
{
    match content_type_mime {
        Some(m) => Some(m),
        None => {
            let ext = extension_of(display_name);
            guess_mime(ext.as_str())
        },
    }
}

/// The MIME type an artifact's bytes are processed as: its recorded type,
/// or `application/octet-stream`.
pub fn processing_mime(mime: &Option<String>) -> (r: String)
    ensures
        r@ == match mime {
            Some(m) => m@,
            None => "application/octet-stream"@,
        },
{
    match mime {
        Some(m) => m.clone(),
        None => String::from_str("application/octet-stream"),
    }
}

} // verus!
