//! Declarative seeding of system servers: what each declared server item
//! becomes (created, adopted, updated or left alone), the requests built
//! from it, which seed-owned rows and group assignments a reconcile
//! removes, and how a server is written back out.
use crate::headers::{field_lookup, fields_view, HeaderEntry, StrFields};
use crate::json::{self, jview, members_view, Json, JsonV};
use crate::object::{keys_sorted, object_insert};
use crate::models::{TransportType, UsageMode};
use crate::text;
use crate::validation::{CreateMcpServerRequest, EnvVarEntry, UpdateMcpServerRequest};
use vstd::prelude::*;
use vstd::string::StringExecFns;

verus! {

/// Declares the `mcp_servers` seed section.
pub struct McpServersSeedProvider;

impl McpServersSeedProvider {
    /// The seed section this provider owns.
    pub fn section(&self) -> (r: &'static str)
        ensures
            r@ == "mcp_servers"@,
    {
        "mcp_servers"
    }
}

/// How a seed run treats existing rows.
#[derive(Debug, Clone, Copy, PartialEq, Eq, Structural)]
pub enum SeedMode {
    /// Only fill in what is missing.
    SeedIfEmpty,
    /// Make the database match the declaration.
    Reconcile,
}

/// A declared server. `headers` and `environment_variables` map names to
/// secret references, in name order.
#[derive(Debug, Clone)]
pub struct ServerItem {
    pub name: String,
    pub display_name: String,
    pub description: Option<String>,
    pub url: Option<String>,
    pub transport_type: Option<String>,
    pub command: Option<String>,
    pub args: Option<Vec<String>>,
    pub enabled: Option<bool>,
    pub supports_sampling: Option<bool>,
    pub timeout_seconds: Option<i32>,
    pub headers: Vec<(String, String)>,
    pub environment_variables: Vec<(String, String)>,
    pub groups: Vec<String>,
}

/// The transport of a declared server: `stdio` as written; `http` and the
/// deprecated `sse` both as Streamable HTTP; otherwise stdio when a command
/// is declared and HTTP when not.
pub open spec fn item_transport(transport: Option<Seq<char>>, has_command: bool) -> TransportType {
    if transport == Some("stdio"@) {
        TransportType::Stdio
    } else if transport == Some("http"@) || transport == Some("sse"@) {
        TransportType::Http
    } else if has_command {
        TransportType::Stdio
    } else {
        TransportType::Http
    }
}

impl ServerItem {
    /// The transport of the declared server.
    pub fn transport(&self) -> (r: TransportType)
        ensures
            r == item_transport(crate::auth::opt_view(self.transport_type), self.command is Some),
    {
        let declared: Option<&str> = match &self.transport_type {
            Some(t) => Some(t.as_str()),
            None => None,
        };
        match declared {
            Some(t) => {
                if text::str_eq(t, "stdio") {
                    return TransportType::Stdio;
                }
                if text::str_eq(t, "http") || text::str_eq(t, "sse") {
                    return TransportType::Http;
                }
            },
            None => {},
        }
        if self.command.is_some() {
            TransportType::Stdio
        } else {
            TransportType::Http
        }
    }
}

/// What a seed run does with one declared server.
#[derive(Debug, Clone, Copy, PartialEq, Eq, Structural)]
pub enum SeedAction {
    /// A seeded server the admin deleted: not resurrected outside a
    /// reconcile.
    SkipDeleted,
    /// A seeded server that exists, under reconcile: updated.
    Update,
    /// A seeded server that exists, outside a reconcile: left alone.
    SkipExisting,
    /// An existing server the seed never created: taken over by the seed.
    Adopt,
    /// A missing server: created.
    Create,
}

/// The action for a declared server that `exists` (or not) and that the
/// seed ledger records (`seeded`) or not.
pub open spec fn seed_action_spec(exists: bool, seeded: bool, mode: SeedMode) -> SeedAction {
    if !exists && seeded && mode != SeedMode::Reconcile {
        SeedAction::SkipDeleted
    } else if exists && seeded {
        if mode == SeedMode::Reconcile {
            SeedAction::Update
        } else {
            SeedAction::SkipExisting
        }
    } else if exists {
        SeedAction::Adopt
    } else {
        SeedAction::Create
    }
}

/// Decides what a seed run does with one declared server.
pub fn seed_action(existing: Option<u128>, seeded: bool, mode: SeedMode) -> (r: SeedAction)
    ensures
        r == seed_action_spec(existing is Some, seeded, mode),
{
    if existing.is_none() && seeded && mode != SeedMode::Reconcile {
        SeedAction::SkipDeleted
    } else if existing.is_some() && seeded {
        if mode == SeedMode::Reconcile {
            SeedAction::Update
        } else {
            SeedAction::SkipExisting
        }
    } else if existing.is_some() {
        SeedAction::Adopt
    } else {
        SeedAction::Create
    }
}

/// The tally of a seed run.
#[derive(Debug, Clone, Copy, PartialEq, Eq, Default)]
pub struct SeedOutcome {
    pub created: u64,
    pub updated: u64,
    pub adopted: u64,
    pub skipped: u64,
    pub deleted: u64,
}

impl SeedOutcome {
    /// Counts one action: each kind of skip as skipped, the others under
    /// their own name.
    pub fn count(&mut self, action: SeedAction)
        requires
            old(self).created < u64::MAX,
            old(self).updated < u64::MAX,
            old(self).adopted < u64::MAX,
            old(self).skipped < u64::MAX,
        ensures
            final(self).deleted == old(self).deleted,
            final(self).created == old(self).created + if action == SeedAction::Create {
                1int
            } else {
                0
            },
            final(self).updated == old(self).updated + if action == SeedAction::Update {
                1int
            } else {
                0
            },
            final(self).adopted == old(self).adopted + if action == SeedAction::Adopt {
                1int
            } else {
                0
            },
            final(self).skipped == old(self).skipped + if action == SeedAction::SkipDeleted
                || action == SeedAction::SkipExisting {
                1int
            } else {
                0
            },
    {
        match action {
            SeedAction::Create => self.created = self.created + 1,
            SeedAction::Update => self.updated = self.updated + 1,
            SeedAction::Adopt => self.adopted = self.adopted + 1,
            SeedAction::SkipDeleted | SeedAction::SkipExisting => self.skipped = self.skipped + 1,
        }
    }
}

/// The entries whose secret reference resolved, in order.
pub open spec fn resolved_keys(r: Seq<(String, Option<String>)>) -> Seq<(Seq<char>, Seq<char>)>
    decreases r.len(),
{
    if r.len() == 0 {
        Seq::empty()
    } else {
        let prev = resolved_keys(r.drop_last());
        match r.last().1 {
            Some(v) => prev.push((r.last().0@, v@)),
            None => prev,
        }
    }
}

/// Secret header entries of a declared server from its resolved
/// references (`None` where the referenced variable is unset): an
/// unresolved header is left out, never the whole server.
pub fn secret_header_entries(resolved: &Vec<(String, Option<String>)>) -> (r: Vec<HeaderEntry>)
    ensures
        r@.map_values(|e: HeaderEntry| (e.key@, e.value->0@)) == resolved_keys(resolved@),
        forall|i: int| 0 <= i < r@.len() ==> (#[trigger] r@[i]).is_secret && r@[i].value is Some,
{
    let mut out: Vec<HeaderEntry> = Vec::new();
    let mut j: usize = 0;
    while j < resolved.len()
        invariant
            j <= resolved@.len(),
            out@.map_values(|e: HeaderEntry| (e.key@, e.value->0@)) == resolved_keys(
                resolved@.take(j as int),
            ),
            forall|i: int| 0 <= i < out@.len() ==> (#[trigger] out@[i]).is_secret && out@[i].value is Some,
        decreases resolved@.len() - j,
    {
        assert(resolved@.take(j + 1).drop_last() =~= resolved@.take(j as int));
        assert(resolved@.take(j + 1).last() == resolved@[j as int]);
        let ghost before = out@.map_values(|e: HeaderEntry| (e.key@, e.value->0@));
        let ghost before_all = out@;
        if let Some(v) = &resolved[j].1 {
            out.push(HeaderEntry { key: resolved[j].0.clone(), value: Some(v.clone()), is_secret: true });
            assert(forall|i: int| 0 <= i < before_all.len() ==> out@[i] == before_all[i]);
        }
        assert(out@.map_values(|e: HeaderEntry| (e.key@, e.value->0@)) =~= resolved_keys(
            resolved@.take(j + 1),
        ));
        j = j + 1;
    }
    assert(resolved@.take(j as int) =~= resolved@);
    out
}

/// Secret environment entries of a declared server, like
/// [`secret_header_entries`].
pub fn secret_env_entries(resolved: &Vec<(String, Option<String>)>) -> (r: Vec<EnvVarEntry>)
    ensures
        r@.map_values(|e: EnvVarEntry| (e.key@, e.value->0@)) == resolved_keys(resolved@),
        forall|i: int| 0 <= i < r@.len() ==> (#[trigger] r@[i]).is_secret && r@[i].value is Some,
{
    let mut out: Vec<EnvVarEntry> = Vec::new();
    let mut j: usize = 0;
    while j < resolved.len()
        invariant
            j <= resolved@.len(),
            out@.map_values(|e: EnvVarEntry| (e.key@, e.value->0@)) == resolved_keys(
                resolved@.take(j as int),
            ),
            forall|i: int| 0 <= i < out@.len() ==> (#[trigger] out@[i]).is_secret && out@[i].value is Some,
        decreases resolved@.len() - j,
    {
        assert(resolved@.take(j + 1).drop_last() =~= resolved@.take(j as int));
        assert(resolved@.take(j + 1).last() == resolved@[j as int]);
        let ghost before = out@;
        if let Some(v) = &resolved[j].1 {
            out.push(EnvVarEntry { key: resolved[j].0.clone(), value: Some(v.clone()), is_secret: true });
            assert(forall|i: int| 0 <= i < before.len() ==> out@[i] == before[i]);
        }
        assert(out@.map_values(|e: EnvVarEntry| (e.key@, e.value->0@)) =~= resolved_keys(
            resolved@.take(j + 1),
        ));
        j = j + 1;
    }
    assert(resolved@.take(j as int) =~= resolved@);
    out
}

fn clone_opt(o: &Option<String>) -> (r: Option<String>)
    ensures
        crate::auth::opt_view(r) == crate::auth::opt_view(*o),
{
    match o {
        Some(s) => Some(s.clone()),
        None => None,
    }
}

fn clone_args(o: &Option<Vec<String>>) -> (r: Option<Vec<String>>)
    ensures
        match (o, r) {
            (Some(a), Some(b)) => b@ == a@,
            (None, None) => true,
            _ => false,
        },
{
    match o {
        Some(a) => Some(a.clone()),
        None => None,
    }
}

/// The request that creates a declared server: its fields as declared, the
/// resolved secrets when there are any, automatic usage, and the defaults
/// for the rest.
pub fn create_request(item: &ServerItem, headers: Vec<HeaderEntry>, envs: Vec<EnvVarEntry>) -> (r:
    CreateMcpServerRequest)
    ensures
        r.name@ == item.name@,
        r.display_name@ == item.display_name@,
        crate::auth::opt_view(r.description) == crate::auth::opt_view(item.description),
        r.enabled == item.enabled,
        r.transport_type == item_transport(
            crate::auth::opt_view(item.transport_type),
            item.command is Some,
        ),
        crate::auth::opt_view(r.command) == crate::auth::opt_view(item.command),
        crate::auth::opt_view(r.url) == crate::auth::opt_view(item.url),
        r.timeout_seconds == item.timeout_seconds,
        r.supports_sampling == item.supports_sampling,
        r.usage_mode == Some(UsageMode::Auto),
        r.max_concurrent_sessions is None,
        r.run_in_sandbox is None,
        r.sandbox_flavor is None,
        r.hub_id is None,
        headers@.len() == 0 <==> r.headers_entries is None,
        r.headers_entries matches Some(h) ==> h@ == headers@,
        envs@.len() == 0 <==> r.environment_variables_entries is None,
        r.environment_variables_entries matches Some(e) ==> e@ == envs@,
{
    let headers_entries = if headers.len() == 0 {
        None
    } else {
        Some(headers)
    };
    let environment_variables_entries = if envs.len() == 0 {
        None
    } else {
        Some(envs)
    };
    CreateMcpServerRequest {
        name: item.name.clone(),
        display_name: item.display_name.clone(),
        description: clone_opt(&item.description),
        enabled: item.enabled,
        transport_type: item.transport(),
        command: clone_opt(&item.command),
        args: clone_args(&item.args),
        environment_variables_entries,
        url: clone_opt(&item.url),
        headers_entries,
        timeout_seconds: item.timeout_seconds,
        supports_sampling: item.supports_sampling,
        usage_mode: Some(UsageMode::Auto),
        max_concurrent_sessions: None,
        run_in_sandbox: None,
        sandbox_flavor: None,
        hub_id: None,
    }
}

/// The request that reconciles an existing seeded server with its
/// declaration: the name is kept; the declared fields (and the resolved
/// secrets, when there are any) replace the stored ones.
pub fn update_request(item: &ServerItem, headers: Vec<HeaderEntry>, envs: Vec<EnvVarEntry>) -> (r:
    UpdateMcpServerRequest)
    ensures
        r.name is None,
        crate::auth::opt_view(r.display_name) == Some(item.display_name@),
        crate::auth::opt_view(r.description) == crate::auth::opt_view(item.description),
        r.enabled == item.enabled,
        crate::auth::opt_view(r.command) == crate::auth::opt_view(item.command),
        crate::auth::opt_view(r.url) == crate::auth::opt_view(item.url),
        r.timeout_seconds == item.timeout_seconds,
        r.supports_sampling == item.supports_sampling,
        r.usage_mode == Some(UsageMode::Auto),
        r.max_concurrent_sessions is None,
        r.run_in_sandbox is None,
        r.sandbox_flavor is None,
        headers@.len() == 0 <==> r.headers_entries is None,
        r.headers_entries matches Some(h) ==> h@ == headers@,
        envs@.len() == 0 <==> r.environment_variables_entries is None,
        r.environment_variables_entries matches Some(e) ==> e@ == envs@,
{
    let headers_entries = if headers.len() == 0 {
        None
    } else {
        Some(headers)
    };
    let environment_variables_entries = if envs.len() == 0 {
        None
    } else {
        Some(envs)
    };
    UpdateMcpServerRequest {
        name: None,
        display_name: Some(item.display_name.clone()),
        description: clone_opt(&item.description),
        enabled: item.enabled,
        command: clone_opt(&item.command),
        args: clone_args(&item.args),
        environment_variables_entries,
        url: clone_opt(&item.url),
        headers_entries,
        timeout_seconds: item.timeout_seconds,
        supports_sampling: item.supports_sampling,
        usage_mode: Some(UsageMode::Auto),
        max_concurrent_sessions: None,
        run_in_sandbox: None,
        sandbox_flavor: None,
    }
}

/// The ledger key of a seeded group assignment: `server:group`.
pub fn assignment_key(server_name: &str, group_name: &str) -> (r: String)
    ensures
        r@ == server_name@ + ":"@ + group_name@,
{
    text::concat3(server_name, ":", group_name)
}

/// The view of a list of names.
pub open spec fn names_view(v: Seq<String>) -> Seq<Seq<char>> {
    v.map_values(|s: String| s@)
}

/// The names of `v` that `keep` does not list, in order.
pub open spec fn not_listed(v: Seq<Seq<char>>, keep: Seq<Seq<char>>) -> Seq<Seq<char>>
    decreases v.len(),
{
    if v.len() == 0 {
        Seq::empty()
    } else {
        let prev = not_listed(v.drop_last(), keep);
        if keep.contains(v.last()) {
            prev
        } else {
            prev.push(v.last())
        }
    }
}

fn listed(name: &String, keep: &Vec<String>) -> (r: bool)
    ensures
        r == names_view(keep@).contains(name@),
{
    let ghost kv = names_view(keep@);
    let mut i: usize = 0;
    while i < keep.len()
        invariant
            i <= keep@.len(),
            kv == names_view(keep@),
            forall|j: int| 0 <= j < i ==> kv[j] != name@,
        decreases keep@.len() - i,
    {
        if keep[i] == *name {
            assert(kv[i as int] == name@);
            return true;
        }
        i = i + 1;
    }
    false
}

/// The names among `names` that are not declared, in order: the seed-owned
/// servers a reconcile deletes, or a server's group assignments that a
/// reconcile considers revoking.
pub fn undeclared(names: &Vec<String>, declared: &Vec<String>) -> (r: Vec<String>)
    ensures
        names_view(r@) == not_listed(names_view(names@), names_view(declared@)),
{
    let ghost nv = names_view(names@);
    let ghost dv = names_view(declared@);
    let mut out: Vec<String> = Vec::new();
    let mut j: usize = 0;
    while j < names.len()
        invariant
            j <= names@.len(),
            nv == names_view(names@),
            dv == names_view(declared@),
            names_view(out@) == not_listed(nv.take(j as int), dv),
        decreases names@.len() - j,
    {
        assert(nv.take(j + 1).drop_last() =~= nv.take(j as int));
        assert(nv.take(j + 1).last() == names@[j as int]@);
        if !listed(&names[j], declared) {
            out.push(names[j].clone());
        }
        assert(names_view(out@) =~= not_listed(nv.take(j + 1), dv));
        j = j + 1;
    }
    assert(nv.take(j as int) =~= nv);
    out
}

/// The names among `keys` that start with `prefix`, in order.
pub open spec fn with_prefix(keys: Seq<Seq<char>>, prefix: Seq<char>) -> Seq<Seq<char>>
    decreases keys.len(),
{
    if keys.len() == 0 {
        Seq::empty()
    } else {
        let prev = with_prefix(keys.drop_last(), prefix);
        if text::starts_with(keys.last(), prefix) {
            prev.push(keys.last())
        } else {
            prev
        }
    }
}

/// The seeded assignment keys of a deleted server: those starting with
/// `server:`.
pub fn owned_assignment_keys(server_name: &str, keys: &Vec<String>) -> (r: Vec<String>)
    ensures
        names_view(r@) == with_prefix(names_view(keys@), server_name@ + ":"@),
{
    let prefix = text::concat2(server_name, ":");
    let ghost kv = names_view(keys@);
    let mut out: Vec<String> = Vec::new();
    let mut j: usize = 0;
    while j < keys.len()
        invariant
            j <= keys@.len(),
            kv == names_view(keys@),
            prefix@ == server_name@ + ":"@,
            names_view(out@) == with_prefix(kv.take(j as int), prefix@),
        decreases keys@.len() - j,
    {
        assert(kv.take(j + 1).drop_last() =~= kv.take(j as int));
        assert(kv.take(j + 1).last() == keys@[j as int]@);
        if text::str_starts_with(keys[j].as_str(), prefix.as_str()) {
            out.push(keys[j].clone());
        }
        assert(names_view(out@) =~= with_prefix(kv.take(j + 1), prefix@));
        j = j + 1;
    }
    assert(kv.take(j as int) =~= kv);
    out
}

/// The Unicode upper-casing of a string (`str::to_uppercase`).
pub uninterp spec fn upper(s: Seq<char>) -> Seq<char>;

/// `str::to_uppercase`: the result is `upper(s@)`.
#[verifier::external_body]
fn to_uppercase(s: &str) -> (r: String)
    ensures
        r@ == upper(s@),
{
    s.to_uppercase()
}

/// How a secret header is written back out: a `${NAME}` reference to the
/// upper-cased header name, never its value.
pub fn header_placeholder(key: &str) -> (r: String)
    ensures
        r@ == "${"@ + upper(key@) + "}"@,
{
    let u = to_uppercase(key);
    text::concat3("${", u.as_str(), "}")
}

/// The secret headers of a dumped server: each secret key (in key order,
/// once) with the placeholder of its value.
pub fn placeholder_headers(secret_keys: &Vec<String>) -> (r: StrFields)
    ensures
        keys_sorted(fields_view(r@)),
        forall|k: Seq<char>|
            #[trigger] field_lookup(fields_view(r@), k) == if names_view(secret_keys@).contains(k) {
                Some(Some("${"@ + upper(k) + "}"@))
            } else {
                None
            },
{
    let ghost kv = names_view(secret_keys@);
    let mut out: StrFields = Vec::new();
    let mut i: usize = 0;
    while i < secret_keys.len()
        invariant
            i <= secret_keys@.len(),
            kv == names_view(secret_keys@),
            keys_sorted(fields_view(out@)),
            forall|k: Seq<char>|
                #[trigger] field_lookup(fields_view(out@), k) == if kv.take(i as int).contains(k) {
                    Some(Some("${"@ + upper(k) + "}"@))
                } else {
                    None
                },
        decreases secret_keys@.len() - i,
    {
        let p = header_placeholder(secret_keys[i].as_str());
        object_insert(&mut out, secret_keys[i].clone(), Some(p));
        proof {
            assert(kv.take(i + 1) =~= kv.take(i as int).push(kv[i as int]));
            assert forall|k: Seq<char>| #[trigger] kv.take(i + 1).contains(k) == (kv.take(
                i as int,
            ).contains(k) || k == kv[i as int]) by {
                vstd::seq_lib::lemma_seq_contains_after_push(kv.take(i as int), kv[i as int], k);
            }
        }
        i = i + 1;
    }
    assert(kv.take(i as int) =~= kv);
    out
}

/// A JSON object of string members.
pub open spec fn string_object(f: Seq<(Seq<char>, Option<Seq<char>>)>) -> JsonV {
    JsonV::Object(
        f.map_values(
            |p: (Seq<char>, Option<Seq<char>>)|
                (
                    p.0,
                    match p.1 {
                        Some(v) => JsonV::Str(v),
                        None => JsonV::Null,
                    },
                ),
        ),
    )
}

/// A JSON array of strings.
pub open spec fn string_array(v: Seq<String>) -> JsonV {
    JsonV::Array(v.map_values(|s: String| JsonV::Str(s@)))
}

/// How a seed-owned server is written back out: its name, display name,
/// description and URL (when set), whether it is enabled, its secret
/// headers as placeholders (when it has any) and its groups (when it has
/// any), members in key order.
pub open spec fn dumped_item_view(
    name: Seq<char>,
    display_name: Seq<char>,
    description: Option<Seq<char>>,
    url: Option<Seq<char>>,
    enabled: bool,
    headers: Seq<(Seq<char>, Option<Seq<char>>)>,
    groups: Seq<String>,
) -> JsonV {
    let d = match description {
        Some(x) => seq![("description"@, JsonV::Str(x))],
        None => Seq::empty(),
    };
    let g = if groups.len() > 0 {
        seq![("groups"@, string_array(groups))]
    } else {
        Seq::empty()
    };
    let h = if headers.len() > 0 {
        seq![("headers"@, string_object(headers))]
    } else {
        Seq::empty()
    };
    let u = match url {
        Some(x) => seq![("url"@, JsonV::Str(x))],
        None => Seq::empty(),
    };
    JsonV::Object(
        d + seq![("display_name"@, JsonV::Str(display_name)), ("enabled"@, JsonV::Bool(enabled))] + g
            + h + seq![("name"@, JsonV::Str(name))] + u,
    )
}

/// Writes one seed-owned server back out (see [`dumped_item_view`]);
/// `headers` are its placeholder headers.
pub fn dumped_item(
    name: &str,
    display_name: &str,
    description: Option<&str>,
    url: Option<&str>,
    enabled: bool,
    headers: &StrFields,
    groups: &Vec<String>,
) -> (r: Json)
    ensures
        jview(r) == dumped_item_view(
            name@,
            display_name@,
            match description {
                Some(x) => Some(x@),
                None => None,
            },
            match url {
                Some(x) => Some(x@),
                None => None,
            },
            enabled,
            fields_view(headers@),
            groups@,
        ),
{
    let ghost dv: Option<Seq<char>> = match description {
        Some(x) => Some(x@),
        None => None,
    };
    let ghost uv: Option<Seq<char>> = match url {
        Some(x) => Some(x@),
        None => None,
    };
    let mut m: Vec<(String, Json)> = Vec::new();
    let ghost mut exp: Seq<(Seq<char>, JsonV)> = Seq::empty();
    if let Some(x) = description {
        m.push((String::from_str("description"), Json::Str(String::from_str(x))));
        proof {
            exp = exp.push(("description"@, JsonV::Str(x@)));
        }
    }
    assert(exp =~= match dv {
        Some(x) => seq![("description"@, JsonV::Str(x))],
        None => Seq::<(Seq<char>, JsonV)>::empty(),
    });
    m.push((String::from_str("display_name"), Json::Str(String::from_str(display_name))));
    m.push((String::from_str("enabled"), Json::Bool(enabled)));
    let ghost d = exp;
    let ghost two = seq![("display_name"@, JsonV::Str(display_name@)), ("enabled"@, JsonV::Bool(enabled))];
    proof {
        exp = exp.push(("display_name"@, JsonV::Str(display_name@))).push(
            ("enabled"@, JsonV::Bool(enabled)),
        );
        assert(exp =~= d + two);
    }
    let ghost g: Seq<(Seq<char>, JsonV)> = if groups@.len() > 0 {
        seq![("groups"@, string_array(groups@))]
    } else {
        Seq::empty()
    };
    let ghost h: Seq<(Seq<char>, JsonV)> = if headers@.len() > 0 {
        seq![("headers"@, string_object(fields_view(headers@)))]
    } else {
        Seq::empty()
    };
    let ghost u: Seq<(Seq<char>, JsonV)> = match uv {
        Some(x) => seq![("url"@, JsonV::Str(x))],
        None => Seq::empty(),
    };
    assert(forall|j: int| 0 <= j < m@.len() ==> (#[trigger] m@[j].0@, jview(m@[j].1)) == exp[j]);
    if groups.len() > 0 {
        let mut items: Vec<Json> = Vec::new();
        let mut i: usize = 0;
        while i < groups.len()
            invariant
                i <= groups@.len(),
                items@.len() == i,
                forall|j: int| 0 <= j < i ==> #[trigger] items@[j] == Json::Str(groups@[j]),
            decreases groups@.len() - i,
        {
            items.push(Json::Str(groups[i].clone()));
            proof {
                assert(items@[i as int] == Json::Str(groups@[i as int]));
            }
            i = i + 1;
        }
        proof {
            json::lemma_items_view(items@);
            assert(json::items_view(items@) =~= groups@.map_values(|s: String| JsonV::Str(s@)));
        }
        let ghost gv = jview(Json::Array(items));
        m.push((String::from_str("groups"), Json::Array(items)));
        proof {
            exp = exp.push(("groups"@, gv));
            assert(gv == string_array(groups@));
        }
    }
    assert(exp =~= d + two + g);
    assert(forall|j: int| 0 <= j < m@.len() ==> (#[trigger] m@[j].0@, jview(m@[j].1)) == exp[j]);
    if headers.len() > 0 {
        let mut hm: Vec<(String, Json)> = Vec::new();
        let mut i: usize = 0;
        while i < headers.len()
            invariant
                i <= headers@.len(),
                hm@.len() == i,
                forall|j: int|
                    0 <= j < i ==> #[trigger] hm@[j] == (
                        headers@[j].0,
                        match headers@[j].1 {
                            Some(v) => Json::Str(v),
                            None => Json::Null,
                        },
                    ),
            decreases headers@.len() - i,
        {
            let v = match &headers[i].1 {
                Some(v) => Json::Str(v.clone()),
                None => Json::Null,
            };
            hm.push((headers[i].0.clone(), v));
            i = i + 1;
        }
        proof {
            json::lemma_members_view(hm@);
            assert(members_view(hm@) =~= fields_view(headers@).map_values(
                |p: (Seq<char>, Option<Seq<char>>)|
                    (
                        p.0,
                        match p.1 {
                            Some(v) => JsonV::Str(v),
                            None => JsonV::Null,
                        },
                    ),
            ));
        }
        let ghost hv = jview(Json::Object(hm));
        m.push((String::from_str("headers"), Json::Object(hm)));
        proof {
            exp = exp.push(("headers"@, hv));
            assert(hv == string_object(fields_view(headers@)));
        }
    }
    assert(exp =~= d + two + g + h);
    assert(forall|j: int| 0 <= j < m@.len() ==> (#[trigger] m@[j].0@, jview(m@[j].1)) == exp[j]);
    m.push((String::from_str("name"), Json::Str(String::from_str(name))));
    proof {
        exp = exp.push(("name"@, JsonV::Str(name@)));
        assert(exp =~= d + two + g + h + seq![("name"@, JsonV::Str(name@))]);
    }
    if let Some(x) = url {
        m.push((String::from_str("url"), Json::Str(String::from_str(x))));
        proof {
            exp = exp.push(("url"@, JsonV::Str(x@)));
        }
    }
    assert(forall|j: int| 0 <= j < m@.len() ==> (#[trigger] m@[j].0@, jview(m@[j].1)) == exp[j]);
    assert(exp =~= d + two + g + h + seq![("name"@, JsonV::Str(name@))] + u);
    proof {
        json::lemma_members_view(m@);
        assert(members_view(m@) =~= exp);
    }
    let r = Json::Object(m);
    assert(jview(r) =~= dumped_item_view(
        name@,
        display_name@,
        dv,
        uv,
        enabled,
        fields_view(headers@),
        groups@,
    ));
    r
}

} // verus!
