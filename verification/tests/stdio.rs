use serde_json::Value;
use ziee_mcp::error::McpError;
use ziee_mcp::headers::StrFields;
use ziee_mcp::models::{McpServer, TransportType, UsageMode};
use ziee_mcp::stdio::{
    check_stdio_transport, create_command, filter_env, is_allowed_command, is_blocked_env_var,
    resolve_command, should_sandbox,
};

/// A JSON value from its text.
fn j(s: &str) -> Value {
    serde_json::from_str(s).unwrap()
}


/// The members of a JSON object as the library reads them; `None` for a
/// value that is not an object.
fn fields(v: &serde_json::Value) -> Option<StrFields> {
    v.as_object().map(|m| {
        m.iter()
            .map(|(k, v)| (k.clone(), v.as_str().map(|s| s.to_string())))
            .collect()
    })
}

fn server_template() -> McpServer {
    McpServer {
        id: uuid::Uuid::new_v4().as_u128(),
        user_id: None,
        name: "test".into(),
        display_name: "Test".into(),
        description: None,
        enabled: true,
        is_system: true,
        is_built_in: false,
        transport_type: TransportType::Stdio,
        command: Some("python3".into()),
        args: Some(vec![]),
        environment_variables: Some(vec![]),
        url: None,
        headers: Some(vec![]),
        environment_variables_entries: vec![],
        headers_entries: vec![],
        timeout_seconds: 30,
        supports_sampling: false,
        usage_mode: UsageMode::Auto,
        max_concurrent_sessions: None,
        run_in_sandbox: true,
        sandbox_flavor: "full".into(),
        last_health_check_at: None,
        last_health_check_status: "untested".into(),
        last_health_check_reason: None,
        created_at: 0,
        updated_at: 0,
    }
}

#[test]
fn should_sandbox_requires_is_system() {
    let mut s = server_template();
    s.is_system = false;
    assert!(!should_sandbox(&s, false));
    assert!(!should_sandbox(&s, true));
}

#[test]
fn should_sandbox_requires_stdio_transport() {
    let mut s = server_template();
    s.transport_type = TransportType::Http;
    assert!(!should_sandbox(&s, false));
    assert!(!should_sandbox(&s, true));
}

#[test]
fn should_sandbox_requires_run_in_sandbox_flag() {
    let mut s = server_template();
    s.run_in_sandbox = false;
    assert!(!should_sandbox(&s, false));
    assert!(!should_sandbox(&s, true));
}

#[test]
fn should_sandbox_false_when_state_uninitialised() {
    let s = server_template();
    assert!(!should_sandbox(&s, false), "expected false when state is None");
}

#[test]
fn should_sandbox_true_when_every_gate_holds() {
    let s = server_template();
    assert!(should_sandbox(&s, true));
}

#[test]
fn filter_env_drops_blocked_keys() {
    let env = j(r#"{
        "FOO": "ok",
        "JWT_SECRET": "leak",
        "DATABASE_PASSWORD": "leak",
        "BAR": "ok"
    }"#);
    let f = fields(&env);
    let filtered = filter_env(f.as_ref());
    let keys: Vec<&str> = filtered.iter().map(|(k, _)| k.as_str()).collect();
    assert!(keys.contains(&"FOO"));
    assert!(keys.contains(&"BAR"));
    assert!(!keys.contains(&"JWT_SECRET"));
    assert!(!keys.contains(&"DATABASE_PASSWORD"));
}

#[test]
fn filter_env_handles_non_string_values_gracefully() {
    let env = j(r#"{ "OK": "yes", "NUM": 42, "OBJ": {"k": "v"} }"#);
    let f = fields(&env);
    let filtered = filter_env(f.as_ref());
    assert_eq!(filtered, vec![("OK".to_string(), "yes".to_string())]);
}

#[test]
fn filter_env_returns_empty_for_non_object() {
    let env = j(r#"null"#);
    let f = fields(&env);
    assert_eq!(filter_env(f.as_ref()), Vec::<(String, String)>::new());
}

#[test]
fn allowlists_are_exact() {
    for c in ["npx", "uvx", "python", "python3", "node", "deno"] {
        assert!(is_allowed_command(c));
    }
    assert!(!is_allowed_command("bash"));
    assert!(!is_allowed_command("Python"));
    assert!(is_blocked_env_var("PGPASSWORD"));
    assert!(!is_blocked_env_var("pgpassword"));
    assert!(!is_blocked_env_var("PATH"));
}

#[test]
fn resolve_command_maps_launchers_to_runtimes() {
    let uv = || Ok::<String, McpError>("/opt/uv".to_string());
    let bun = || Ok::<String, McpError>("/opt/bun".to_string());
    assert_eq!(
        resolve_command("uvx", uv(), bun()).unwrap(),
        ("/opt/uv".to_string(), vec!["tool".to_string(), "run".to_string()])
    );
    assert_eq!(
        resolve_command("python3", uv(), bun()).unwrap(),
        ("/opt/uv".to_string(), vec!["run".to_string(), "python3".to_string()])
    );
    assert_eq!(
        resolve_command("npx", uv(), bun()).unwrap(),
        ("/opt/bun".to_string(), vec!["x".to_string()])
    );
    assert_eq!(
        resolve_command("node", uv(), bun()).unwrap(),
        ("/opt/bun".to_string(), vec!["run".to_string()])
    );
    assert_eq!(resolve_command("deno", uv(), bun()).unwrap(), ("deno".to_string(), vec![]));
    let missing = McpError::internal_error("uv not bundled".to_string());
    let e = resolve_command("uvx", Err(missing), bun()).unwrap_err();
    assert_eq!(e.message, "uv not bundled");
}

#[test]
fn create_command_builds_the_launch_plan() {
    let mut s = server_template();
    s.command = Some("uvx".into());
    s.args = Some(vec![Some("mcp-server-fetch".into()), None, Some("--x".into())]);
    s.environment_variables = fields(&j(r#"{"A": "1", "JWT_SECRET": "no", "N": 3}"#));
    let plan = create_command(&s, Ok("/opt/uv".into()), Ok("/opt/bun".into())).unwrap();
    assert_eq!(plan.program, "/opt/uv");
    assert_eq!(plan.args, vec!["tool", "run", "mcp-server-fetch", "--x"]);
    assert_eq!(plan.env, vec![("A".to_string(), "1".to_string())]);

    s.command = Some("bash".into());
    let e = create_command(&s, Ok("/opt/uv".into()), Ok("/opt/bun".into())).unwrap_err();
    assert_eq!(e.code, "INVALID_COMMAND");
    assert_eq!(
        e.message,
        "Command 'bash' is not allowed. Allowed commands: [\"npx\", \"uvx\", \"python\", \"python3\", \"node\", \"deno\"]"
    );

    s.command = None;
    let e = create_command(&s, Ok("/opt/uv".into()), Ok("/opt/bun".into())).unwrap_err();
    assert_eq!(e.code, "MISSING_COMMAND");
}

#[test]
fn stdio_client_refuses_other_transports() {
    assert!(check_stdio_transport(TransportType::Stdio).is_ok());
    let e = check_stdio_transport(TransportType::Http).unwrap_err();
    assert_eq!((e.status, e.code.as_str()), (400, "INVALID_TRANSPORT"));
}
