//! Connection-health enforcement: which saves probe the server, what a
//! probe's outcome does to the server, and what is reported.
use crate::error::{McpError, STATUS_BAD_REQUEST};
use crate::models::McpServer;
use crate::text;
use crate::validation::TestMcpConnectionResponse;
use vstd::prelude::*;
use vstd::string::StringExecFns;

verus! {

/// A failed probe, with the reason reported by the connection test.
#[derive(Debug, Clone, PartialEq, Eq)]
pub struct ProbeFailure {
    pub reason: String,
}

/// A created server, with the warning of a failed probe (after which the
/// server was disabled).
#[derive(Debug, Clone)]
pub struct McpServerWithHealthWarning {
    pub server: McpServer,
    pub connection_warning: Option<ProbeFailure>,
}

/// A new server is probed when it was created enabled and is not built in.
pub fn should_probe_on_create(server: &McpServer) -> (r: bool)
    ensures
        r == (server.enabled && !server.is_built_in),
{
    server.enabled && !server.is_built_in
}

/// An updated server is probed when the update turned it on (it was
/// disabled before) and it is not built in.
pub fn should_probe_on_update(persisted: &McpServer, old_enabled: bool) -> (r: bool)
    ensures
        r == (persisted.enabled && !old_enabled && !persisted.is_built_in),
{
    persisted.enabled && !old_enabled && !persisted.is_built_in
}

/// The probe outcome of a connection test: a failed test is a failure
/// with the test's message as the reason.
pub fn probe_outcome(response: TestMcpConnectionResponse) -> (r: Result<(), ProbeFailure>)
    ensures
        r is Ok <==> response.success,
        r matches Err(f) ==> f.reason@ == response.message@,
{
    if response.success {
        Ok(())
    } else {
        Err(ProbeFailure { reason: response.message })
    }
}

/// The health status recorded for a probe: `healthy` with no reason, or
/// `unhealthy` with the failure's reason.
pub fn health_record(outcome: &Result<(), ProbeFailure>) -> (r: (&'static str, Option<String>))
    ensures
        match outcome {
            Ok(_) => r.0@ == "healthy"@ && r.1 is None,
            Err(f) => r.0@ == "unhealthy"@ && (r.1 matches Some(s) && s@ == f.reason@),
        },
{
    match outcome {
        Ok(_) => ("healthy", None),
        Err(f) => ("unhealthy", Some(f.reason.clone())),
    }
}

/// The status a connection test records on the saved server it targets.
pub fn test_health_record(response: &TestMcpConnectionResponse) -> (r: (&'static str, Option<String>))
    ensures
        response.success ==> r.0@ == "healthy"@ && r.1 is None,
        !response.success ==> r.0@ == "unhealthy"@ && (r.1 matches Some(s) && s@
            == response.message@),
{
    if response.success {
        ("healthy", None)
    } else {
        ("unhealthy", Some(response.message.clone()))
    }
}

/// The error of an update whose enabling probe failed: the other changes
/// stay saved, the server stays disabled.
pub fn enable_failed_error(failure: &ProbeFailure) -> (r: McpError)
    ensures
        r.status == STATUS_BAD_REQUEST,
        r.code@ == "MCP_ENABLE_FAILED_HEALTH_CHECK"@,
        r.message@
            == "Other changes were saved, but the server could not be enabled because the connection probe failed: "@
            + failure.reason@,
{
    McpError::bad_request(
        "MCP_ENABLE_FAILED_HEALTH_CHECK",
        text::concat2(
            "Other changes were saved, but the server could not be enabled because the connection probe failed: ",
            failure.reason.as_str(),
        ),
    )
}

/// The reason of a probe that could not read the server's OAuth
/// configuration.
pub fn oauth_read_failure(err: &McpError) -> (r: ProbeFailure)
    ensures
        r.reason@ == "Failed to read OAuth config: "@ + err.message@,
{
    ProbeFailure { reason: text::concat2("Failed to read OAuth config: ", err.message.as_str()) }
}

} // verus!
