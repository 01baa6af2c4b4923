//! Validation of server create, update and connection-test requests: the
//! fields each transport needs, URL schemes, host-allowed commands and
//! sandbox flavors.
use crate::error::{McpError, STATUS_BAD_REQUEST};
use crate::headers::{self, HeaderEntry};
use crate::models::{McpServer, SetMcpServerOAuthConfigRequest, TransportType, UsageMode};
use crate::text;
use vstd::prelude::*;
use vstd::string::StringExecFns;

verus! {

/// An environment-variable entry of a request; a `None` value keeps a
/// saved secret.
#[derive(Debug, Clone, PartialEq, Eq)]
pub struct EnvVarEntry {
    pub key: String,
    pub value: Option<String>,
    pub is_secret: bool,
}

/// A request to create a server.
#[derive(Debug, Clone)]
pub struct CreateMcpServerRequest {
    pub name: String,
    pub display_name: String,
    pub description: Option<String>,
    pub enabled: Option<bool>,
    pub transport_type: TransportType,
    pub command: Option<String>,
    pub args: Option<Vec<String>>,
    pub environment_variables_entries: Option<Vec<EnvVarEntry>>,
    pub url: Option<String>,
    pub headers_entries: Option<Vec<HeaderEntry>>,
    pub timeout_seconds: Option<i32>,
    pub supports_sampling: Option<bool>,
    pub usage_mode: Option<UsageMode>,
    pub max_concurrent_sessions: Option<i32>,
    pub run_in_sandbox: Option<bool>,
    pub sandbox_flavor: Option<String>,
    /// The catalog entry the server was installed from, if any.
    pub hub_id: Option<String>,
}

/// A request to update a server; every `None` field keeps its value.
#[derive(Debug, Clone)]
pub struct UpdateMcpServerRequest {
    pub name: Option<String>,
    pub display_name: Option<String>,
    pub description: Option<String>,
    pub enabled: Option<bool>,
    pub command: Option<String>,
    pub args: Option<Vec<String>>,
    pub environment_variables_entries: Option<Vec<EnvVarEntry>>,
    pub url: Option<String>,
    pub headers_entries: Option<Vec<HeaderEntry>>,
    pub timeout_seconds: Option<i32>,
    pub supports_sampling: Option<bool>,
    pub usage_mode: Option<UsageMode>,
    pub max_concurrent_sessions: Option<i32>,
    pub run_in_sandbox: Option<bool>,
    pub sandbox_flavor: Option<String>,
}

/// A candidate configuration to probe without saving it.
#[derive(Debug, Clone)]
pub struct TestMcpConnectionRequest {
    pub transport_type: TransportType,
    pub command: Option<String>,
    pub args: Option<Vec<String>>,
    pub environment_variables_entries: Option<Vec<EnvVarEntry>>,
    pub url: Option<String>,
    pub headers_entries: Option<Vec<HeaderEntry>>,
    pub timeout_seconds: Option<i32>,
    pub oauth: Option<SetMcpServerOAuthConfigRequest>,
    /// The saved server being edited, if any.
    pub id: Option<u128>,
}

/// The outcome of a connection test.
#[derive(Debug, Clone, PartialEq, Eq)]
pub struct TestMcpConnectionResponse {
    pub success: bool,
    pub message: String,
    pub tool_count: Option<usize>,
}

/// Whether a URL uses the `http` or `https` scheme.
pub open spec fn url_ok(url: Seq<char>) -> bool {
    text::starts_with(url, "http://"@) || text::starts_with(url, "https://"@)
}

/// A URL must start with `http://` or `https://`.
pub fn validate_url(url: &str) -> (r: Result<(), McpError>)
    ensures
        r is Ok <==> url_ok(url@),
        r matches Err(e) ==> e.status == STATUS_BAD_REQUEST && e.code@ == "INVALID_URL"@
            && e.message@ == "url must start with http:// or https://"@,
{
    if !text::str_starts_with(url, "http://") && !text::str_starts_with(url, "https://") {
        return Err(
            McpError::bad_request(
                "INVALID_URL",
                String::from_str("url must start with http:// or https://"),
            ),
        );
    }
    Ok(())
}

/// The view of an optional string.
pub open spec fn ov(o: Option<String>) -> Option<Seq<char>> {
    crate::auth::opt_view(o)
}

/// An optional string that is absent or empty.
pub open spec fn absent_or_empty(o: Option<Seq<char>>) -> bool {
    match o {
        None => true,
        Some(s) => s.len() == 0,
    }
}

/// The transport fields a create request needs: a command for stdio, an
/// `http(s)` URL otherwise.
pub fn validate_transport_config(
    transport_type: &TransportType,
    request: &CreateMcpServerRequest,
) -> (r: Result<(), McpError>)
    ensures
        match *transport_type {
            TransportType::Stdio => match r {
                Ok(_) => !absent_or_empty(ov(request.command)),
                Err(e) => absent_or_empty(ov(request.command)) && e.status == STATUS_BAD_REQUEST
                    && e.code@ == "INVALID_TRANSPORT"@ && e.message@
                    == "command is required for stdio transport"@,
            },
            _ => match r {
                Ok(_) => !absent_or_empty(ov(request.url)) && url_ok(request.url->0@),
                Err(e) => e.status == STATUS_BAD_REQUEST && if absent_or_empty(ov(request.url)) {
                    e.code@ == "INVALID_TRANSPORT"@ && e.message@
                        == "url is required for http/sse transport"@
                } else {
                    !url_ok(request.url->0@) && e.code@ == "INVALID_URL"@
                },
            },
        },
{
    match transport_type {
        TransportType::Stdio => {
            let missing = match &request.command {
                None => true,
                Some(c) => c.unicode_len() == 0,
            };
            if missing {
                return Err(
                    McpError::bad_request(
                        "INVALID_TRANSPORT",
                        String::from_str("command is required for stdio transport"),
                    ),
                );
            }
        },
        _ => {
            match &request.url {
                None => {
                    return Err(
                        McpError::bad_request(
                            "INVALID_TRANSPORT",
                            String::from_str("url is required for http/sse transport"),
                        ),
                    );
                },
                Some(u) => {
                    if u.unicode_len() == 0 {
                        return Err(
                            McpError::bad_request(
                                "INVALID_TRANSPORT",
                                String::from_str("url is required for http/sse transport"),
                            ),
                        );
                    }
                    validate_url(u.as_str())?;
                },
            }
        },
    }
    Ok(())
}

/// The transport fields of an update: a command, when given, must not be
/// empty; a URL, when given, must not be empty and must be `http(s)`.
pub fn validate_transport_update(
    transport_type: &TransportType,
    request: &UpdateMcpServerRequest,
) -> (r: Result<(), McpError>)
    ensures
        match *transport_type {
            TransportType::Stdio => match r {
                Ok(_) => !(request.command matches Some(c) && c@.len() == 0),
                Err(e) => request.command matches Some(c) && c@.len() == 0 && e.status
                    == STATUS_BAD_REQUEST && e.code@ == "INVALID_TRANSPORT"@ && e.message@
                    == "command cannot be empty for stdio transport"@,
            },
            _ => match r {
                Ok(_) => request.url matches Some(u) ==> u@.len() > 0 && url_ok(u@),
                Err(e) => request.url is Some && e.status == STATUS_BAD_REQUEST && if request.url->0@.len()
                    == 0 {
                    e.code@ == "INVALID_TRANSPORT"@ && e.message@
                        == "url cannot be empty for http/sse transport"@
                } else {
                    !url_ok(request.url->0@) && e.code@ == "INVALID_URL"@
                },
            },
        },
{
    match transport_type {
        TransportType::Stdio => {
            if let Some(c) = &request.command {
                if c.unicode_len() == 0 {
                    return Err(
                        McpError::bad_request(
                            "INVALID_TRANSPORT",
                            String::from_str("command cannot be empty for stdio transport"),
                        ),
                    );
                }
            }
        },
        _ => {
            if let Some(u) = &request.url {
                if u.unicode_len() == 0 {
                    return Err(
                        McpError::bad_request(
                            "INVALID_TRANSPORT",
                            String::from_str("url cannot be empty for http/sse transport"),
                        ),
                    );
                }
                validate_url(u.as_str())?;
            }
        },
    }
    Ok(())
}

/// The launchers a stdio server may use when it runs on the host (not in
/// the sandbox): those the host resolves to the bundled runtimes.
pub open spec fn host_allowed_commands() -> Seq<Seq<char>> {
    seq!["npx"@, "uvx"@, "python"@, "python3"@, "node"@]
}

/// Whether `cmd` is one of the host-allowed launchers.
pub fn is_host_allowed_command(cmd: &str) -> (r: bool)
    ensures
        r == host_allowed_commands().contains(cmd@),
{
    let r = text::str_eq(cmd, "npx") || text::str_eq(cmd, "uvx") || text::str_eq(cmd, "python")
        || text::str_eq(cmd, "python3") || text::str_eq(cmd, "node");
    proof {
        let l = host_allowed_commands();
        if r {
            if cmd@ == l[0] {
                assert(l[0] == cmd@);
            } else if cmd@ == l[1] {
                assert(l[1] == cmd@);
            } else if cmd@ == l[2] {
                assert(l[2] == cmd@);
            } else if cmd@ == l[3] {
                assert(l[3] == cmd@);
            } else {
                assert(l[4] == cmd@);
            }
        } else {
            assert forall|i: int| 0 <= i < l.len() implies l[i] != cmd@ by {}
        }
    }
    r
}

/// The message refusing a command on the host.
pub open spec fn host_command_message(cmd: Seq<char>) -> Seq<char> {
    "Command '"@ + cmd
        + "' is not allowed on the host. Allowed commands: [\"npx\", \"uvx\", \"python\", \"python3\", \"node\"]. Enable run-in-sandbox to use any command."@
}

/// A stdio command run on the host must be one of the host-allowed
/// launchers.
pub fn require_host_command(cmd: &str) -> (r: Result<(), McpError>)
    ensures
        r is Ok <==> host_allowed_commands().contains(cmd@),
        r matches Err(e) ==> e.status == STATUS_BAD_REQUEST && e.code@ == "INVALID_COMMAND"@
            && e.message@ == host_command_message(cmd@),
{
    if !is_host_allowed_command(cmd) {
        return Err(
            McpError::bad_request(
                "INVALID_COMMAND",
                text::concat3(
                    "Command '",
                    cmd,
                    "' is not allowed on the host. Allowed commands: [\"npx\", \"uvx\", \"python\", \"python3\", \"node\"]. Enable run-in-sandbox to use any command.",
                ),
            ),
        );
    }
    Ok(())
}

/// The sandbox root-filesystem flavors.
pub open spec fn known_flavors() -> Seq<Seq<char>> {
    seq!["minimal"@, "full"@]
}

/// A sandbox flavor, when given, must be a known one.
pub fn validate_sandbox_flavor(flavor: Option<&str>) -> (r: Result<(), McpError>)
    ensures
        r is Ok <==> (flavor matches Some(f) ==> known_flavors().contains(f@)),
        r matches Err(e) ==> e.status == STATUS_BAD_REQUEST && e.code@ == "INVALID_FLAVOR"@
            && e.message@ == "Unknown sandbox flavor '"@ + flavor->0@ + "'"@,
{
    if let Some(f) = flavor {
        let known = text::str_eq(f, "minimal") || text::str_eq(f, "full");
        proof {
            let l = known_flavors();
            if known {
                if f@ == l[0] {
                    assert(l[0] == f@);
                } else {
                    assert(l[1] == f@);
                }
            } else {
                assert forall|i: int| 0 <= i < l.len() implies l[i] != f@ by {}
            }
        }
        if !known {
            return Err(
                McpError::bad_request("INVALID_FLAVOR", text::concat3("Unknown sandbox flavor '", f, "'")),
            );
        }
    }
    Ok(())
}

fn opt_str(o: &Option<String>) -> (r: Option<&str>)
    ensures
        match (o, r) {
            (Some(a), Some(b)) => a@ == b@,
            (None, None) => true,
            _ => false,
        },
{
    match o {
        Some(s) => Some(s.as_str()),
        None => None,
    }
}

/// Whether a stdio server runs in the sandbox: only a system server with
/// `run_in_sandbox` on.
pub open spec fn sandboxed(is_system: bool, transport: TransportType, run_in_sandbox: bool) -> bool {
    is_system && transport == TransportType::Stdio && run_in_sandbox
}

/// The command and flavor checks of a create request: the flavor must be
/// known; a stdio server that will not run in the sandbox (user-owned, or
/// a system server with `run_in_sandbox` off) must use a host-allowed
/// command; a sandboxed one may use any command.
pub fn validate_sandbox_fields_create(is_system: bool, req: &CreateMcpServerRequest) -> (r: Result<
    (),
    McpError,
>)
    ensures
        r is Ok <==> {
            &&& (req.sandbox_flavor matches Some(f) ==> known_flavors().contains(f@))
            &&& (req.transport_type == TransportType::Stdio && !sandboxed(
                is_system,
                req.transport_type,
                req.run_in_sandbox == Some(true),
            ) && req.command is Some ==> host_allowed_commands().contains(req.command->0@))
        },
        r matches Err(e) ==> e.status == STATUS_BAD_REQUEST && if req.sandbox_flavor matches Some(
            f,
        ) && !known_flavors().contains(f@) {
            e.code@ == "INVALID_FLAVOR"@
        } else {
            e.code@ == "INVALID_COMMAND"@ && e.message@ == host_command_message(req.command->0@)
        },
{
    validate_sandbox_flavor(opt_str(&req.sandbox_flavor))?;
    let run = match req.run_in_sandbox {
        Some(b) => b,
        None => false,
    };
    let is_sandboxed = is_system && req.transport_type == TransportType::Stdio && run;
    if req.transport_type == TransportType::Stdio && !is_sandboxed {
        if let Some(cmd) = &req.command {
            require_host_command(cmd.as_str())?;
        }
    }
    Ok(())
}

/// The command and flavor checks of an update, with the saved server
/// filling in what the request leaves out (the transport cannot change;
/// command and `run_in_sandbox` fall back to the saved values).
pub fn validate_sandbox_fields_update(existing: &McpServer, req: &UpdateMcpServerRequest) -> (r:
    Result<(), McpError>)
    ensures
        ({
            let command = if req.command is Some {
                req.command
            } else {
                existing.command
            };
            let run = match req.run_in_sandbox {
                Some(b) => b,
                None => existing.run_in_sandbox,
            };
            &&& r is Ok <==> {
                &&& (req.sandbox_flavor matches Some(f) ==> known_flavors().contains(f@))
                &&& (existing.transport_type == TransportType::Stdio && !sandboxed(
                    existing.is_system,
                    existing.transport_type,
                    run,
                ) && command is Some ==> host_allowed_commands().contains(command->0@))
            }
            &&& r matches Err(e) ==> e.status == STATUS_BAD_REQUEST && if req.sandbox_flavor matches Some(
                f,
            ) && !known_flavors().contains(f@) {
                e.code@ == "INVALID_FLAVOR"@
            } else {
                e.code@ == "INVALID_COMMAND"@ && e.message@ == host_command_message(command->0@)
            }
        }),
{
    validate_sandbox_flavor(opt_str(&req.sandbox_flavor))?;
    let command = match &req.command {
        Some(c) => Some(c),
        None => match &existing.command {
            Some(c) => Some(c),
            None => None,
        },
    };
    let run = match req.run_in_sandbox {
        Some(b) => b,
        None => existing.run_in_sandbox,
    };
    let is_sandboxed = existing.is_system && existing.transport_type == TransportType::Stdio && run;
    if existing.transport_type == TransportType::Stdio && !is_sandboxed {
        if let Some(cmd) = command {
            require_host_command(cmd.as_str())?;
        }
    }
    Ok(())
}

/// An optional string that is absent or only whitespace.
pub open spec fn absent_or_blank(o: Option<Seq<char>>) -> bool {
    match o {
        None => true,
        Some(s) => text::trim(s).len() == 0,
    }
}

/// Whether a string is only whitespace.
fn is_blank(s: &String) -> (r: bool)
    ensures
        r == (text::trim(s@).len() == 0),
{
    headers::trim_string(s.as_str()).unicode_len() == 0
}

/// Checks a connection-test request before anything is spawned or opened:
/// stdio needs a non-blank command, HTTP a non-blank URL (SSE passes here
/// and fails in the test itself), and the headers must be sendable.
pub fn validate(req: &TestMcpConnectionRequest) -> (r: Result<(), McpError>)
    ensures
        r is Ok <==> {
            &&& (req.transport_type == TransportType::Stdio ==> !absent_or_blank(ov(req.command)))
            &&& (req.transport_type == TransportType::Http ==> !absent_or_blank(ov(req.url)))
            &&& (req.headers_entries matches Some(h) ==> forall|k: Seq<char>|
                !headers::probe_fails(headers::entries_view(h@), k))
        },
        r matches Err(e) ==> e.status == STATUS_BAD_REQUEST && if req.transport_type
            == TransportType::Stdio && absent_or_blank(ov(req.command)) {
            e.code@ == "MISSING_COMMAND"@ && e.message@ == "Command is required for stdio transport"@
        } else if req.transport_type == TransportType::Http && absent_or_blank(ov(req.url)) {
            e.code@ == "MISSING_URL"@ && e.message@ == "URL is required for HTTP transport"@
        } else {
            e.code@ == "INVALID_HEADER"@
        },
{
    match req.transport_type {
        TransportType::Stdio => {
            let missing = match &req.command {
                None => true,
                Some(c) => is_blank(c),
            };
            if missing {
                return Err(
                    McpError::bad_request(
                        "MISSING_COMMAND",
                        String::from_str("Command is required for stdio transport"),
                    ),
                );
            }
        },
        TransportType::Http => {
            let missing = match &req.url {
                None => true,
                Some(u) => is_blank(u),
            };
            if missing {
                return Err(
                    McpError::bad_request(
                        "MISSING_URL",
                        String::from_str("URL is required for HTTP transport"),
                    ),
                );
            }
        },
        TransportType::Sse => {},
    }
    if let Some(entries) = &req.headers_entries {
        headers::validate_header_entries(entries)?;
    }
    Ok(())
}

/// A failed connection test carrying the error's text.
pub fn failure(err: McpError) -> (r: TestMcpConnectionResponse)
    ensures
        !r.success,
        r.message@ == err.message@,
        r.tool_count is None,
{
    TestMcpConnectionResponse { success: false, message: err.to_text(), tool_count: None }
}

/// The message of a connection test of a deprecated SSE server.
pub open spec fn sse_test_message() -> Seq<char> {
    "The SSE (HTTP+SSE) transport was deprecated in MCP 2025-03-26. Reconfigure this server to use the Streamable HTTP transport (\"http\")."@
}

/// The connection test of an SSE server: it fails without connecting.
pub fn sse_test_response() -> (r: TestMcpConnectionResponse)
    ensures
        !r.success,
        r.message@ == sse_test_message(),
        r.tool_count is None,
{
    TestMcpConnectionResponse {
        success: false,
        message: String::from_str(
            "The SSE (HTTP+SSE) transport was deprecated in MCP 2025-03-26. Reconfigure this server to use the Streamable HTTP transport (\"http\").",
        ),
        tool_count: None,
    }
}

/// A passed connection test: the handshake succeeded; the tool count is
/// given when the tool listing succeeded too.
pub fn success_response(tool_count: Option<usize>) -> (r: TestMcpConnectionResponse)
    ensures
        r.success,
        r.tool_count == tool_count,
        r.message@ == match tool_count {
            Some(n) => "Connected successfully \u{2014} "@ + text::decimal(n as nat)
                + " tool(s) available"@,
            None => "Connected successfully"@,
        },
{
    let message = match tool_count {
        Some(n) => {
            let d = text::decimal_string(n as u64);
            text::concat3("Connected successfully \u{2014} ", d.as_str(), " tool(s) available")
        },
        None => String::from_str("Connected successfully"),
    };
    TestMcpConnectionResponse { success: true, message, tool_count }
}

/// The error of a session opened on a server with the deprecated SSE
/// transport.
pub fn sse_deprecated_error() -> (r: McpError)
    ensures
        r.status == STATUS_BAD_REQUEST,
        r.code@ == "DEPRECATED_TRANSPORT"@,
        r.message@
            == "The SSE (HTTP+SSE) transport was deprecated in MCP 2025-03-26. Reconfigure this server to use the Streamable HTTP transport (\"http\") instead. The new transport uses the same JSON-RPC payloads but a single POST endpoint that may respond with either JSON or SSE."@,
{
    McpError::bad_request(
        "DEPRECATED_TRANSPORT",
        String::from_str(
            "The SSE (HTTP+SSE) transport was deprecated in MCP 2025-03-26. Reconfigure this server to use the Streamable HTTP transport (\"http\") instead. The new transport uses the same JSON-RPC payloads but a single POST endpoint that may respond with either JSON or SSE.",
        ),
    )
}

} // verus!
