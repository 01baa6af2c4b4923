use ziee_mcp::headers::HeaderEntry;
use ziee_mcp::models::{McpServer, TransportType, UsageMode};
use ziee_mcp::probe::build_ephemeral_server;
use ziee_mcp::validation::{
    failure, require_host_command, sse_test_response, success_response, validate,
    validate_sandbox_fields_create, validate_sandbox_fields_update, validate_sandbox_flavor,
    validate_transport_config, validate_url, CreateMcpServerRequest, EnvVarEntry,
    TestMcpConnectionRequest, UpdateMcpServerRequest,
};
use ziee_mcp::error::McpError;

fn http_req() -> TestMcpConnectionRequest {
    TestMcpConnectionRequest {
        transport_type: TransportType::Http,
        command: None,
        args: None,
        environment_variables_entries: None,
        url: Some("https://example.com/mcp".to_string()),
        headers_entries: Some(vec![HeaderEntry {
            key: "x-test".to_string(),
            value: Some("1".to_string()),
            is_secret: false,
        }]),
        timeout_seconds: None,
        oauth: None,
        id: None,
    }
}

fn stdio_req() -> TestMcpConnectionRequest {
    TestMcpConnectionRequest {
        transport_type: TransportType::Stdio,
        command: Some("uvx".to_string()),
        args: Some(vec!["mcp-server-fetch".to_string()]),
        environment_variables_entries: Some(vec![EnvVarEntry {
            key: "FOO".to_string(),
            value: Some("bar".to_string()),
            is_secret: false,
        }]),
        url: None,
        headers_entries: None,
        timeout_seconds: Some(15),
        oauth: None,
        id: None,
    }
}

fn create_req(transport_type: TransportType, command: Option<&str>, url: Option<&str>) -> CreateMcpServerRequest {
    CreateMcpServerRequest {
        name: "s".into(),
        display_name: "S".into(),
        description: None,
        enabled: None,
        transport_type,
        command: command.map(|c| c.to_string()),
        args: None,
        environment_variables_entries: None,
        url: url.map(|u| u.to_string()),
        headers_entries: None,
        timeout_seconds: None,
        supports_sampling: None,
        usage_mode: None,
        max_concurrent_sessions: None,
        run_in_sandbox: None,
        sandbox_flavor: None,
        hub_id: None,
    }
}

#[test]
fn host_allowlist_accepts_the_five_launchers_rejects_others() {
    for c in ["npx", "uvx", "python", "python3", "node"] {
        assert!(require_host_command(c).is_ok(), "{c} should be allowed");
    }
    for c in ["deno", "bash", "sh", "rm", "Rscript", "custom-bin"] {
        assert!(require_host_command(c).is_err(), "{c} should be rejected");
    }
}

#[test]
fn sandbox_flavor_must_be_known_or_absent() {
    assert!(validate_sandbox_flavor(None).is_ok());
    assert!(validate_sandbox_flavor(Some("full")).is_ok());
    assert!(validate_sandbox_flavor(Some("minimal")).is_ok());
    assert!(validate_sandbox_flavor(Some("bogus")).is_err());
    assert!(validate_sandbox_flavor(Some("")).is_err());
}

#[test]
fn validate_rejects_stdio_without_command() {
    let mut req = stdio_req();
    req.command = None;
    assert!(validate(&req).is_err());
    req.command = Some("   ".to_string());
    assert!(validate(&req).is_err());
}

#[test]
fn validate_rejects_http_without_url() {
    let mut req = http_req();
    req.url = None;
    assert!(validate(&req).is_err());
    req.url = Some(String::new());
    assert!(validate(&req).is_err());
}

#[test]
fn validate_accepts_valid_configs() {
    assert!(validate(&http_req()).is_ok());
    assert!(validate(&stdio_req()).is_ok());
}

#[test]
fn validate_reports_which_field_is_missing() {
    let mut req = stdio_req();
    req.command = None;
    let e = validate(&req).unwrap_err();
    assert_eq!(e.code, "MISSING_COMMAND");
    assert_eq!(e.message, "Command is required for stdio transport");
    let mut req = http_req();
    req.url = Some(" ".into());
    let e = validate(&req).unwrap_err();
    assert_eq!(e.code, "MISSING_URL");
    let mut req = http_req();
    req.headers_entries = Some(vec![HeaderEntry {
        key: "bad key".into(),
        value: Some("v".into()),
        is_secret: false,
    }]);
    assert_eq!(validate(&req).unwrap_err().code, "INVALID_HEADER");
}

#[test]
fn build_ephemeral_server_maps_stdio_fields() {
    let server = build_ephemeral_server(&stdio_req(), Some(0), false, None, 0);
    assert_eq!(server.transport_type, TransportType::Stdio);
    assert_eq!(server.command.as_deref(), Some("uvx"));
    assert_eq!(server.args, Some(vec![Some("mcp-server-fetch".to_string())]));
    assert_eq!(
        server.environment_variables,
        Some(vec![("FOO".to_string(), Some("bar".to_string()))])
    );
    assert_eq!(server.timeout_seconds, 15);
    assert!(!server.is_system);
    assert!(!server.is_built_in);
    assert!(server.enabled);
}

#[test]
fn build_ephemeral_server_maps_http_fields_and_defaults() {
    let server = build_ephemeral_server(&http_req(), None, true, None, 0);
    assert_eq!(server.transport_type, TransportType::Http);
    assert_eq!(server.url.as_deref(), Some("https://example.com/mcp"));
    assert_eq!(server.headers, Some(vec![("x-test".to_string(), Some("1".to_string()))]));
    assert_eq!(server.args, Some(vec![]));
    assert_eq!(server.environment_variables, Some(vec![]));
    assert_eq!(server.timeout_seconds, 30);
    assert!(server.is_system);
}

#[test]
fn build_ephemeral_server_resolves_secrets_from_the_saved_server() {
    let mut req = stdio_req();
    req.environment_variables_entries = Some(vec![
        EnvVarEntry { key: "TOKEN".into(), value: None, is_secret: true },
        EnvVarEntry { key: "PLAIN".into(), value: None, is_secret: false },
        EnvVarEntry { key: "A".into(), value: Some("first".into()), is_secret: false },
        EnvVarEntry { key: "A".into(), value: Some("last".into()), is_secret: false },
        EnvVarEntry { key: "GONE".into(), value: None, is_secret: true },
    ]);
    let mut saved = build_ephemeral_server(&stdio_req(), None, false, None, 0);
    saved.environment_variables = Some(vec![
        ("PLAIN".into(), Some("saved-plain".into())),
        ("TOKEN".into(), Some("s3cret".into())),
    ]);
    let server = build_ephemeral_server(&req, None, false, Some(&saved), 42);
    assert_eq!(
        server.environment_variables,
        Some(vec![
            ("A".to_string(), Some("last".to_string())),
            ("GONE".to_string(), Some(String::new())),
            ("PLAIN".to_string(), Some(String::new())),
            ("TOKEN".to_string(), Some("s3cret".to_string())),
        ])
    );
    assert_eq!(server.created_at, 42);
    assert_eq!(server.name, "connection-test");
    assert_eq!(server.last_health_check_status, "untested");
    assert!(!server.run_in_sandbox);
    assert_eq!(server.usage_mode, UsageMode::Auto);
}

#[test]
fn transport_config_and_url_rules() {
    assert!(validate_url("https://x").is_ok());
    assert_eq!(validate_url("ftp://x").unwrap_err().code, "INVALID_URL");
    let e = validate_transport_config(&TransportType::Stdio, &create_req(TransportType::Stdio, Some(""), None))
        .unwrap_err();
    assert_eq!(e.message, "command is required for stdio transport");
    let e = validate_transport_config(&TransportType::Http, &create_req(TransportType::Http, None, None))
        .unwrap_err();
    assert_eq!(e.message, "url is required for http/sse transport");
    let e = validate_transport_config(&TransportType::Http, &create_req(TransportType::Http, None, Some("ws://x")))
        .unwrap_err();
    assert_eq!(e.code, "INVALID_URL");
    assert!(validate_transport_config(&TransportType::Http, &create_req(TransportType::Http, None, Some("http://x"))).is_ok());
}

#[test]
fn sandbox_fields_tiering() {
    // A user stdio server must use a host launcher.
    let req = create_req(TransportType::Stdio, Some("bash"), None);
    let e = validate_sandbox_fields_create(false, &req).unwrap_err();
    assert_eq!(e.code, "INVALID_COMMAND");
    assert_eq!(
        e.message,
        "Command 'bash' is not allowed on the host. Allowed commands: [\"npx\", \"uvx\", \"python\", \"python3\", \"node\"]. Enable run-in-sandbox to use any command."
    );
    // A sandboxed system server may use any command.
    let mut req = create_req(TransportType::Stdio, Some("bash"), None);
    req.run_in_sandbox = Some(true);
    assert!(validate_sandbox_fields_create(true, &req).is_ok());
    req.sandbox_flavor = Some("bogus".into());
    let e = validate_sandbox_fields_create(true, &req).unwrap_err();
    assert_eq!(e.message, "Unknown sandbox flavor 'bogus'");

    // Update falls back to the saved command and sandbox flag.
    let mut existing: McpServer = build_ephemeral_server(&stdio_req(), None, true, None, 0);
    existing.command = Some("bash".into());
    existing.run_in_sandbox = true;
    let upd = UpdateMcpServerRequest {
        name: None,
        display_name: None,
        description: None,
        enabled: None,
        command: None,
        args: None,
        environment_variables_entries: None,
        url: None,
        headers_entries: None,
        timeout_seconds: None,
        supports_sampling: None,
        usage_mode: None,
        max_concurrent_sessions: None,
        run_in_sandbox: None,
        sandbox_flavor: None,
    };
    assert!(validate_sandbox_fields_update(&existing, &upd).is_ok());
    let mut off = upd.clone();
    off.run_in_sandbox = Some(false);
    assert_eq!(validate_sandbox_fields_update(&existing, &off).unwrap_err().code, "INVALID_COMMAND");
}

#[test]
fn connection_test_responses() {
    let r = success_response(Some(3));
    assert!(r.success);
    assert_eq!(r.message, "Connected successfully \u{2014} 3 tool(s) available");
    assert_eq!(success_response(None).message, "Connected successfully");
    let r = sse_test_response();
    assert!(!r.success);
    assert!(r.message.contains("deprecated"));
    assert!(r.tool_count.is_none());
    let r = failure(McpError::bad_request("X", "boom".into()));
    assert_eq!((r.success, r.message.as_str(), r.tool_count), (false, "boom", None));
}

#[test]
fn transport_updates_and_deprecated_sse() {
    let mut upd = UpdateMcpServerRequest {
        name: None,
        display_name: None,
        description: None,
        enabled: None,
        command: Some(String::new()),
        args: None,
        environment_variables_entries: None,
        url: None,
        headers_entries: None,
        timeout_seconds: None,
        supports_sampling: None,
        usage_mode: None,
        max_concurrent_sessions: None,
        run_in_sandbox: None,
        sandbox_flavor: None,
    };
    let e = ziee_mcp::validation::validate_transport_update(&TransportType::Stdio, &upd).unwrap_err();
    assert_eq!(e.message, "command cannot be empty for stdio transport");
    upd.command = None;
    assert!(ziee_mcp::validation::validate_transport_update(&TransportType::Stdio, &upd).is_ok());
    upd.url = Some(String::new());
    let e = ziee_mcp::validation::validate_transport_update(&TransportType::Http, &upd).unwrap_err();
    assert_eq!(e.message, "url cannot be empty for http/sse transport");
    upd.url = Some("file:///x".into());
    assert_eq!(
        ziee_mcp::validation::validate_transport_update(&TransportType::Sse, &upd).unwrap_err().code,
        "INVALID_URL"
    );
    let e = ziee_mcp::validation::sse_deprecated_error();
    assert_eq!((e.status, e.code.as_str()), (400, "DEPRECATED_TRANSPORT"));
    assert!(e.message.starts_with("The SSE (HTTP+SSE) transport was deprecated in MCP 2025-03-26."));
}
