//! The server model: transports, usage modes, a configured MCP server and
//! the per-entry views of its environment variables and headers.
use crate::error::McpError;
use crate::headers::StrFields;
use crate::text;
use vstd::prelude::*;
use vstd::string::StringExecFns;
use vstd::string::StrSliceExecFns;

verus! {

/// How the client talks to a server.
#[derive(Debug, Clone, Copy, PartialEq, Eq, Structural)]
pub enum TransportType {
    /// A child process speaking JSON-RPC over stdin/stdout.
    Stdio,
    /// Streamable HTTP: one POST endpoint answering JSON or an event stream.
    Http,
    /// The deprecated HTTP+SSE transport.
    Sse,
}

/// The wire name of a transport.
pub open spec fn transport_name(t: TransportType) -> Seq<char> {
    match t {
        TransportType::Stdio => "stdio"@,
        TransportType::Http => "http"@,
        TransportType::Sse => "sse"@,
    }
}

impl TransportType {
    /// Parses a wire name; any other name is a `500` "Unknown transport
    /// type" error (a stored row holds a value the code does not know).
    pub fn from_str(s: &str) -> (r: Result<TransportType, McpError>)
        ensures
            match r {
                Ok(t) => transport_name(t) == s@,
                Err(e) => (forall|t: TransportType| transport_name(t) != s@) && e.status
                    == crate::error::STATUS_INTERNAL && e.message@ == "Unknown transport type: "@
                    + s@,
            },
    {
        if text::str_eq(s, "stdio") {
            Ok(TransportType::Stdio)
        } else if text::str_eq(s, "http") {
            Ok(TransportType::Http)
        } else if text::str_eq(s, "sse") {
            Ok(TransportType::Sse)
        } else {
            Err(McpError::internal_error(text::concat2("Unknown transport type: ", s)))
        }
    }

    /// The wire name.
    pub fn to_string(&self) -> (r: String)
        ensures
            r@ == transport_name(*self),
    {
        match self {
            TransportType::Stdio => String::from_str("stdio"),
            TransportType::Http => String::from_str("http"),
            TransportType::Sse => String::from_str("sse"),
        }
    }
}

/// The wire names of the transports are distinct: reading back a written
/// transport gives the same transport.
pub proof fn law_transport_names_distinct(a: TransportType, b: TransportType)
    ensures
        transport_name(a) == transport_name(b) ==> a == b,
{
    reveal_strlit("stdio");
    reveal_strlit("http");
    reveal_strlit("sse");
    if transport_name(a) == transport_name(b) && a != b {
        assert(transport_name(a).len() != transport_name(b).len() || transport_name(a)[0] != transport_name(b)[0]);
    }
}

/// When a server's tools are offered to the model.
#[derive(Debug, Clone, Copy, PartialEq, Eq, Structural)]
pub enum UsageMode {
    /// Offered when relevant.
    Auto,
    /// Always offered.
    Always,
}

/// The wire name of a usage mode.
pub open spec fn usage_mode_name(m: UsageMode) -> Seq<char> {
    match m {
        UsageMode::Auto => "auto"@,
        UsageMode::Always => "always"@,
    }
}

impl UsageMode {
    /// Parses a wire name; any other name is a `500` "Unknown usage mode"
    /// error.
    pub fn from_str(s: &str) -> (r: Result<UsageMode, McpError>)
        ensures
            match r {
                Ok(m) => usage_mode_name(m) == s@,
                Err(e) => (forall|m: UsageMode| usage_mode_name(m) != s@) && e.status
                    == crate::error::STATUS_INTERNAL && e.message@ == "Unknown usage mode: "@ + s@,
            },
    {
        if text::str_eq(s, "auto") {
            Ok(UsageMode::Auto)
        } else if text::str_eq(s, "always") {
            Ok(UsageMode::Always)
        } else {
            Err(McpError::internal_error(text::concat2("Unknown usage mode: ", s)))
        }
    }

    /// The wire name.
    pub fn to_string(&self) -> (r: String)
        ensures
            r@ == usage_mode_name(*self),
    {
        match self {
            UsageMode::Auto => String::from_str("auto"),
            UsageMode::Always => String::from_str("always"),
        }
    }
}

/// The wire names of the usage modes are distinct.
pub proof fn law_usage_mode_names_distinct(a: UsageMode, b: UsageMode)
    ensures
        usage_mode_name(a) == usage_mode_name(b) ==> a == b,
{
    reveal_strlit("auto");
    reveal_strlit("always");
    if usage_mode_name(a) == usage_mode_name(b) && a != b {
        assert(usage_mode_name(a).len() != usage_mode_name(b).len());
    }
}

/// One environment variable of a server as the API shows it: a secret's
/// value is never shown (`None`).
#[derive(Debug, Clone, PartialEq, Eq)]
pub struct EnvVarView {
    pub key: String,
    pub value: Option<String>,
    pub is_secret: bool,
}

/// One header of a server as the API shows it, like [`EnvVarView`].
#[derive(Debug, Clone, PartialEq, Eq)]
pub struct HeaderView {
    pub key: String,
    pub value: Option<String>,
    pub is_secret: bool,
}

/// The view of a `(key, value, is_secret)` entry.
pub open spec fn entry_view(e: (String, Option<String>, bool)) -> (Seq<char>, Option<Seq<char>>, bool) {
    (
        e.0@,
        match e.1 {
            Some(v) => Some(v@),
            None => None,
        },
        e.2,
    )
}

/// The view of an [`EnvVarView`].
pub open spec fn env_view_of(e: EnvVarView) -> (Seq<char>, Option<Seq<char>>, bool) {
    (
        e.key@,
        match e.value {
            Some(v) => Some(v@),
            None => None,
        },
        e.is_secret,
    )
}

/// The view of a [`HeaderView`].
pub open spec fn header_view_of(e: HeaderView) -> (Seq<char>, Option<Seq<char>>, bool) {
    (
        e.key@,
        match e.value {
            Some(v) => Some(v@),
            None => None,
        },
        e.is_secret,
    )
}

fn clone_opt(o: &Option<String>) -> (r: Option<String>)
    ensures
        match (o, r) {
            (Some(a), Some(b)) => a@ == b@,
            (None, None) => true,
            _ => false,
        },
{
    match o {
        Some(s) => Some(s.clone()),
        None => None,
    }
}

/// The entries as environment-variable views, in order.
pub fn views_to_env(views: Vec<(String, Option<String>, bool)>) -> (r: Vec<EnvVarView>)
    ensures
        r@.len() == views@.len(),
        forall|i: int| 0 <= i < r@.len() ==> env_view_of(#[trigger] r@[i]) == entry_view(views@[i]),
{
    let mut out: Vec<EnvVarView> = Vec::new();
    let mut i: usize = 0;
    while i < views.len()
        invariant
            i <= views@.len(),
            out@.len() == i,
            forall|j: int| 0 <= j < i ==> env_view_of(#[trigger] out@[j]) == entry_view(views@[j]),
        decreases views@.len() - i,
    {
        let e = &views[i];
        out.push(EnvVarView { key: e.0.clone(), value: clone_opt(&e.1), is_secret: e.2 });
        i = i + 1;
    }
    out
}

/// The entries as header views, in order.
pub fn views_to_headers(views: Vec<(String, Option<String>, bool)>) -> (r: Vec<HeaderView>)
    ensures
        r@.len() == views@.len(),
        forall|i: int|
            0 <= i < r@.len() ==> header_view_of(#[trigger] r@[i]) == entry_view(views@[i]),
{
    let mut out: Vec<HeaderView> = Vec::new();
    let mut i: usize = 0;
    while i < views.len()
        invariant
            i <= views@.len(),
            out@.len() == i,
            forall|j: int|
                0 <= j < i ==> header_view_of(#[trigger] out@[j]) == entry_view(views@[j]),
        decreases views@.len() - i,
    {
        let e = &views[i];
        out.push(HeaderView { key: e.0.clone(), value: clone_opt(&e.1), is_secret: e.2 });
        i = i + 1;
    }
    out
}

/// The health status of a server that was never probed.
pub fn default_health_status() -> (r: String)
    ensures
        r@ == "untested"@,
{
    String::from_str("untested")
}

/// A JSON array as the logic reads it: each item when it is a string,
/// `None` for any other item.
pub type StrItems = Vec<Option<String>>;

/// A configured MCP server. The JSON-valued columns are held as what the
/// logic reads of them: `args` as the array's items (`None` when the
/// column is not an array), `environment_variables` and `headers` as the
/// object's members (`None` when not an object). Instants are Unix
/// milliseconds.
#[derive(Debug, Clone)]
pub struct McpServer {
    pub id: u128,
    pub user_id: Option<u128>,
    pub name: String,
    pub display_name: String,
    pub description: Option<String>,
    pub enabled: bool,
    pub is_system: bool,
    pub is_built_in: bool,
    pub transport_type: TransportType,
    pub command: Option<String>,
    pub args: Option<StrItems>,
    /// The decrypted environment variables (never shown by the API).
    pub environment_variables: Option<StrFields>,
    pub url: Option<String>,
    /// The decrypted headers (never shown by the API).
    pub headers: Option<StrFields>,
    pub environment_variables_entries: Vec<EnvVarView>,
    pub headers_entries: Vec<HeaderView>,
    pub timeout_seconds: i32,
    pub supports_sampling: bool,
    pub usage_mode: UsageMode,
    pub max_concurrent_sessions: Option<i32>,
    /// Launch the stdio process inside the code sandbox.
    pub run_in_sandbox: bool,
    /// Root-filesystem flavor of the sandbox.
    pub sandbox_flavor: String,
    pub last_health_check_at: Option<i64>,
    /// `untested`, `healthy` or `unhealthy`.
    pub last_health_check_status: String,
    pub last_health_check_reason: Option<String>,
    pub created_at: i64,
    pub updated_at: i64,
}

/// A request to set a server's OAuth `client_credentials` configuration.
#[derive(Debug, Clone, PartialEq, Eq)]
pub struct SetMcpServerOAuthConfigRequest {
    pub client_id: String,
    pub client_secret: String,
    pub scopes: Option<String>,
    pub resource: Option<String>,
}

/// A server's stored OAuth `client_credentials` configuration (instants
/// in Unix milliseconds).
#[derive(Debug, Clone)]
pub struct McpServerOAuthConfig {
    pub server_id: u128,
    pub client_id: String,
    pub client_secret: String,
    pub scopes: Option<String>,
    pub resource: Option<String>,
    pub created_at: i64,
    pub updated_at: i64,
}

/// The API view of a server's OAuth configuration: whether a secret is
/// stored, never the secret itself.
#[derive(Debug, Clone, PartialEq, Eq)]
pub struct McpServerOAuthConfigResponse {
    pub server_id: u128,
    pub client_id: String,
    pub has_client_secret: bool,
    pub scopes: Option<String>,
    pub resource: Option<String>,
    pub created_at: i64,
    pub updated_at: i64,
}

impl McpServerOAuthConfig {
    /// The configuration the HTTP client authenticates with.
    pub fn into_client_config(self) -> (r: crate::auth::OAuthClientConfig)
        ensures
            r.client_id == self.client_id,
            r.client_secret == self.client_secret,
            r.scopes == self.scopes,
            r.resource == self.resource,
    {
        crate::auth::OAuthClientConfig {
            client_id: self.client_id,
            client_secret: self.client_secret,
            scopes: self.scopes,
            resource: self.resource,
        }
    }

    /// The API view: every field but the secret, and whether the secret is
    /// non-empty.
    pub fn to_response(&self) -> (r: McpServerOAuthConfigResponse)
        ensures
            r.server_id == self.server_id,
            r.client_id@ == self.client_id@,
            r.has_client_secret == (self.client_secret@.len() > 0),
            crate::auth::opt_view(r.scopes) == crate::auth::opt_view(self.scopes),
            crate::auth::opt_view(r.resource) == crate::auth::opt_view(self.resource),
            r.created_at == self.created_at,
            r.updated_at == self.updated_at,
    {
        McpServerOAuthConfigResponse {
            server_id: self.server_id,
            client_id: self.client_id.clone(),
            has_client_secret: self.client_secret.as_str().unicode_len() > 0,
            scopes: match &self.scopes {
                Some(s) => Some(s.clone()),
                None => None,
            },
            resource: match &self.resource {
                Some(s) => Some(s.clone()),
                None => None,
            },
            created_at: self.created_at,
            updated_at: self.updated_at,
        }
    }
}

} // verus!
