use ziee_mcp::approvals::approval_entries;
use ziee_mcp::listing::user_listing_view;
use ziee_mcp::manager::{finish_builtin_headers, MintOutcome};
use ziee_mcp::approvals::{resolve_effective, ApprovalMode};
use ziee_mcp::error::McpError;
use ziee_mcp::health::{
    enable_failed_error, health_record, oauth_read_failure, probe_outcome, should_probe_on_create,
    should_probe_on_update, test_health_record, ProbeFailure,
};
use ziee_mcp::listing::{
    accessible_status_filter, default_page, default_per_page, normalize_search, system_status_filter, total_pages,
};
use ziee_mcp::manager::{builtin_context_headers, check_enabled, sessions_to_reap, with_bearer};
use ziee_mcp::models::{default_health_status, views_to_env, views_to_headers, TransportType, UsageMode};
use ziee_mcp::permissions::{has_admin_access, McpServersAdminEdit, McpServersRead, PermissionCheck};
use ziee_mcp::probe::build_ephemeral_server;
use ziee_mcp::seed::{
    assignment_key, create_request, header_placeholder, owned_assignment_keys, secret_env_entries,
    secret_header_entries, seed_action, undeclared, update_request, McpServersSeedProvider, SeedAction,
    SeedMode, SeedOutcome, ServerItem,
};
use ziee_mcp::validation::{TestMcpConnectionRequest, TestMcpConnectionResponse};

fn s(x: &str) -> String {
    x.to_string()
}

fn server() -> ziee_mcp::models::McpServer {
    let req = TestMcpConnectionRequest {
        transport_type: TransportType::Http,
        command: None,
        args: None,
        environment_variables_entries: None,
        url: Some(s("https://x/mcp")),
        headers_entries: None,
        timeout_seconds: None,
        oauth: None,
        id: None,
    };
    build_ephemeral_server(&req, None, true, None, 0)
}

#[test]
fn wire_names_round_trip() {
    for t in [TransportType::Stdio, TransportType::Http, TransportType::Sse] {
        assert_eq!(TransportType::from_str(&t.to_string()).unwrap(), t);
    }
    let e = TransportType::from_str("websocket").unwrap_err();
    assert_eq!((e.status, e.message.as_str()), (500, "Unknown transport type: websocket"));
    for m in [UsageMode::Auto, UsageMode::Always] {
        assert_eq!(UsageMode::from_str(&m.to_string()).unwrap(), m);
    }
    assert_eq!(UsageMode::from_str("never").unwrap_err().message, "Unknown usage mode: never");
    for m in [ApprovalMode::AutoApprove, ApprovalMode::ManualApprove, ApprovalMode::Disabled] {
        assert_eq!(ApprovalMode::parse(m.as_str()), Some(m));
    }
    assert_eq!(ApprovalMode::parse("sometimes"), None);
    assert_eq!(default_health_status(), "untested");
}

#[test]
fn entry_views_keep_order_and_hide_nothing_more() {
    let views = vec![(s("A"), Some(s("1")), false), (s("B"), None, true)];
    let env = views_to_env(views.clone());
    assert_eq!((env[1].key.as_str(), env[1].value.is_none(), env[1].is_secret), ("B", true, true));
    let hdr = views_to_headers(views);
    assert_eq!((hdr[0].key.as_str(), hdr[0].value.as_deref(), hdr[0].is_secret), ("A", Some("1"), false));
}

#[test]
fn tool_overrides_resolve_to_effective_modes() {
    let overrides = vec![(s("search"), s("auto_approve")), (s("rm"), s("bogus")), (s("search"), s("disabled"))];
    assert_eq!(resolve_effective(&overrides, "search"), (ApprovalMode::AutoApprove, true), "the first override wins");
    assert_eq!(resolve_effective(&overrides, "rm"), (ApprovalMode::ManualApprove, false));
    assert_eq!(resolve_effective(&overrides, "other"), (ApprovalMode::ManualApprove, false));
}

#[test]
fn listing_queries() {
    assert_eq!((default_page(), default_per_page()), (1, 20));
    assert_eq!(normalize_search(Some("  fetch ")).as_deref(), Some("fetch"));
    assert_eq!(normalize_search(Some("   ")), None);
    assert_eq!(normalize_search(None), None);
    assert_eq!(system_status_filter(Some("enabled")), Some(true));
    assert_eq!(system_status_filter(Some("disabled")), Some(false));
    assert_eq!(system_status_filter(Some("all")), None);
    assert_eq!(accessible_status_filter(Some("system")), (None, Some(true)));
    assert_eq!(accessible_status_filter(Some("user")), (None, Some(false)));
    assert_eq!(accessible_status_filter(Some("enabled")), (Some(true), None));
    assert_eq!(accessible_status_filter(None), (None, None));
    assert_eq!(total_pages(0, 20), 0);
    assert_eq!(total_pages(20, 20), 1);
    assert_eq!(total_pages(41, 20), 3);
}

#[test]
fn health_probes_and_records() {
    let mut srv = server();
    assert!(should_probe_on_create(&srv));
    srv.is_built_in = true;
    assert!(!should_probe_on_create(&srv));
    srv.is_built_in = false;
    assert!(should_probe_on_update(&srv, false));
    assert!(!should_probe_on_update(&srv, true), "an already-enabled server is not re-probed");
    let failed = TestMcpConnectionResponse { success: false, message: s("refused"), tool_count: None };
    let outcome = probe_outcome(failed.clone());
    assert_eq!(outcome, Err(ProbeFailure { reason: s("refused") }));
    assert_eq!(health_record(&outcome), ("unhealthy", Some(s("refused"))));
    assert_eq!(health_record(&Ok(())), ("healthy", None));
    assert_eq!(test_health_record(&failed), ("unhealthy", Some(s("refused"))));
    let e = enable_failed_error(&ProbeFailure { reason: s("timeout") });
    assert_eq!(e.code, "MCP_ENABLE_FAILED_HEALTH_CHECK");
    assert_eq!(
        e.message,
        "Other changes were saved, but the server could not be enabled because the connection probe failed: timeout"
    );
    let f = oauth_read_failure(&McpError::internal_error(s("db down")));
    assert_eq!(f.reason, "Failed to read OAuth config: db down");
}

#[test]
fn session_manager_rules() {
    let mut srv = server();
    assert!(check_enabled(&srv).is_ok());
    srv.enabled = false;
    let e = check_enabled(&srv).unwrap_err();
    assert_eq!((e.status, e.code.as_str(), e.message.as_str()), (400, "server_disabled", "Server is disabled"));

    let cid = uuid::Uuid::new_v4();
    let (h, needs_token) = builtin_context_headers(vec![(s("x-a"), Some(s("1")))], Some(cid.as_u128()), None);
    assert_eq!(h, vec![(s("x-a"), Some(s("1"))), (s("x-conversation-id"), Some(cid.to_string()))]);
    assert!(needs_token);
    let (_, needs_token) = builtin_context_headers(vec![(s("Authorization"), Some(s("Bearer t")))], None, None);
    assert!(!needs_token);
    let with = with_bearer(vec![(s("x-a"), None)], "tok");
    assert_eq!(with, vec![(s("Authorization"), Some(s("Bearer tok"))), (s("x-a"), None)]);

    assert_eq!(sessions_to_reap(&vec![(1, 10), (2, 1801), (3, 1800)], 1800), vec![2]);
}

#[test]
fn permission_strings_and_admin_access() {
    assert_eq!(McpServersRead::permission(), "mcp_servers::read");
    assert_eq!(McpServersAdminEdit::permission(), "mcp_servers_admin::edit");
    assert_eq!(McpServersRead::module(), "mcp");
    assert!(has_admin_access(true, &vec![]));
    assert!(has_admin_access(false, &vec![s("x::y"), s("mcp_servers_admin::delete")]));
    assert!(!has_admin_access(false, &vec![s("mcp_servers::read")]));
}

fn item() -> ServerItem {
    ServerItem {
        name: s("fetch"),
        display_name: s("Fetch"),
        description: None,
        url: None,
        transport_type: None,
        command: Some(s("uvx")),
        args: Some(vec![s("mcp-server-fetch")]),
        enabled: Some(true),
        supports_sampling: None,
        timeout_seconds: Some(10),
        headers: vec![],
        environment_variables: vec![],
        groups: vec![s("staff")],
    }
}

#[test]
fn seed_decisions() {
    assert_eq!(McpServersSeedProvider.section(), "mcp_servers");
    assert_eq!(seed_action(None, true, SeedMode::SeedIfEmpty), SeedAction::SkipDeleted);
    assert_eq!(seed_action(None, true, SeedMode::Reconcile), SeedAction::Create);
    assert_eq!(seed_action(Some(1), true, SeedMode::Reconcile), SeedAction::Update);
    assert_eq!(seed_action(Some(1), true, SeedMode::SeedIfEmpty), SeedAction::SkipExisting);
    assert_eq!(seed_action(Some(1), false, SeedMode::SeedIfEmpty), SeedAction::Adopt);
    assert_eq!(seed_action(None, false, SeedMode::SeedIfEmpty), SeedAction::Create);

    let mut tally = SeedOutcome::default();
    for a in [SeedAction::Create, SeedAction::SkipDeleted, SeedAction::SkipExisting, SeedAction::Adopt] {
        tally.count(a);
    }
    assert_eq!((tally.created, tally.skipped, tally.adopted, tally.updated), (1, 2, 1, 0));

    let mut it = item();
    assert_eq!(it.transport(), TransportType::Stdio);
    it.transport_type = Some(s("sse"));
    assert_eq!(it.transport(), TransportType::Http, "sse is seeded as streamable HTTP");
    it.transport_type = Some(s("other"));
    it.command = None;
    assert_eq!(it.transport(), TransportType::Http);

    let resolved = vec![(s("Authorization"), Some(s("Bearer x"))), (s("X-Missing"), None)];
    let headers = secret_header_entries(&resolved);
    assert_eq!(headers.len(), 1);
    assert_eq!((headers[0].key.as_str(), headers[0].value.as_deref(), headers[0].is_secret), ("Authorization", Some("Bearer x"), true));
    let envs = secret_env_entries(&vec![(s("API_KEY"), Some(s("k")))]);
    assert_eq!((envs[0].key.as_str(), envs[0].is_secret), ("API_KEY", true));

    let create = create_request(&item(), headers.clone(), vec![]);
    assert_eq!(create.name, "fetch");
    assert_eq!(create.transport_type, TransportType::Stdio);
    assert_eq!(create.usage_mode, Some(UsageMode::Auto));
    assert!(create.environment_variables_entries.is_none());
    assert_eq!(create.headers_entries.as_ref().map(|h| h.len()), Some(1));
    let update = update_request(&item(), vec![], envs);
    assert!(update.name.is_none());
    assert_eq!(update.display_name.as_deref(), Some("Fetch"));
    assert!(update.headers_entries.is_none());

    assert_eq!(assignment_key("fetch", "staff"), "fetch:staff");
    assert_eq!(
        undeclared(&vec![s("a"), s("b"), s("c")], &vec![s("b")]),
        vec![s("a"), s("c")]
    );
    assert_eq!(
        owned_assignment_keys("fetch", &vec![s("fetch:staff"), s("fetcher:x"), s("fetch:admins")]),
        vec![s("fetch:staff"), s("fetch:admins")]
    );
    assert_eq!(header_placeholder("x-api-key"), "${X-API-KEY}");
}

use ziee_mcp::manager::session_call_context;
use ziee_mcp::seed::{dumped_item, placeholder_headers};
use ziee_mcp::tool_calls::McpToolCallSource;

#[test]
fn sessions_carry_the_call_context() {
    let mut srv = server();
    srv.is_built_in = true;
    let ctx = session_call_context(&srv, 7, Some(1), None, Some(2), Some(s("tu")), McpToolCallSource::Rest);
    assert_eq!(ctx.user_id, Some(7));
    assert_eq!((ctx.conversation_id, ctx.branch_id, ctx.message_id), (Some(1), None, Some(2)));
    assert_eq!(ctx.tool_use_id.as_deref(), Some("tu"));
    assert_eq!(ctx.source, McpToolCallSource::Rest);
    assert_eq!(ctx.server_name, "connection-test");
    assert!(ctx.is_built_in);
    assert!(ctx.workflow_run_id.is_none() && ctx.review_classification.is_none());
}

#[test]
fn seed_dump_writes_placeholders_never_values() {
    let h = placeholder_headers(&vec![s("x-key"), s("Authorization"), s("x-key")]);
    assert_eq!(h, vec![(s("Authorization"), Some(s("${AUTHORIZATION}"))), (s("x-key"), Some(s("${X-KEY}")))]);
    let item = dumped_item("fetch", "Fetch", None, Some("https://f/mcp"), true, &h, &vec![s("admins"), s("staff")]);
    let expected = ziee_mcp::json::Json::Object(vec![
        (s("display_name"), ziee_mcp::json::Json::Str(s("Fetch"))),
        (s("enabled"), ziee_mcp::json::Json::Bool(true)),
        (
            s("groups"),
            ziee_mcp::json::Json::Array(vec![ziee_mcp::json::Json::Str(s("admins")), ziee_mcp::json::Json::Str(s("staff"))]),
        ),
        (
            s("headers"),
            ziee_mcp::json::Json::Object(vec![
                (s("Authorization"), ziee_mcp::json::Json::Str(s("${AUTHORIZATION}"))),
                (s("x-key"), ziee_mcp::json::Json::Str(s("${X-KEY}"))),
            ]),
        ),
        (s("name"), ziee_mcp::json::Json::Str(s("fetch"))),
        (s("url"), ziee_mcp::json::Json::Str(s("https://f/mcp"))),
    ]);
    assert_eq!(item, expected);
    let bare = dumped_item("a", "A", Some("d"), None, false, &vec![], &vec![]);
    assert_eq!(
        bare,
        ziee_mcp::json::Json::Object(vec![
            (s("description"), ziee_mcp::json::Json::Str(s("d"))),
            (s("display_name"), ziee_mcp::json::Json::Str(s("A"))),
            (s("enabled"), ziee_mcp::json::Json::Bool(false)),
            (s("name"), ziee_mcp::json::Json::Str(s("a"))),
        ])
    );
}

#[test]
fn approval_list_keeps_advertised_order_then_sorted_leftovers() {
    let advertised = vec![("zeta".to_string(), Some("z".to_string())), ("alpha".to_string(), None)];
    let overrides = vec![
        ("stale_b".to_string(), "disabled".to_string()),
        ("zeta".to_string(), "auto_approve".to_string()),
        ("stale_a".to_string(), "bogus".to_string()),
    ];
    let r = approval_entries(&advertised, &overrides);
    let names: Vec<&str> = r.iter().map(|e| e.tool_name.as_str()).collect();
    assert_eq!(names, vec!["zeta", "alpha", "stale_a", "stale_b"]);
    assert_eq!((r[0].effective_mode, r[0].has_override), (ApprovalMode::AutoApprove, true));
    assert_eq!(r[0].description.as_deref(), Some("z"));
    assert_eq!((r[1].effective_mode, r[1].has_override), (ApprovalMode::ManualApprove, false));
    assert_eq!((r[2].effective_mode, r[2].has_override), (ApprovalMode::ManualApprove, false));
    assert_eq!((r[3].effective_mode, r[3].has_override), (ApprovalMode::Disabled, true));
    assert!(r[3].description.is_none());
    // Tools that could not be listed: every override, sorted.
    let r = approval_entries(&vec![], &overrides);
    let names: Vec<&str> = r.iter().map(|e| e.tool_name.as_str()).collect();
    assert_eq!(names, vec!["stale_a", "stale_b", "zeta"]);
}

#[test]
fn system_server_url_is_hidden_from_users() {
    let mut s = server();
    s.url = Some("https://internal.example/mcp".into());
    s.is_system = true;
    assert_eq!(user_listing_view(s.clone()).url, None);
    s.is_system = false;
    assert_eq!(user_listing_view(s).url.as_deref(), Some("https://internal.example/mcp"));
}

#[test]
fn builtin_headers_get_the_minted_token_or_the_error() {
    let (h, needs) = builtin_context_headers(vec![("X-A".into(), Some("1".into()))], None, None);
    assert!(needs);
    let done = finish_builtin_headers(h.clone(), MintOutcome::Minted("tok".into())).unwrap();
    assert!(done.contains(&("Authorization".to_string(), Some("Bearer tok".to_string()))));
    assert!(done.contains(&("X-A".to_string(), Some("1".to_string()))));
    let e = finish_builtin_headers(h.clone(), MintOutcome::UnknownUser).unwrap_err();
    assert_eq!((e.status, e.code.as_str(), e.message.as_str()), (401, "USER_NOT_FOUND", "User not found"));
    let e = finish_builtin_headers(h, MintOutcome::Failed(McpError::internal_error("boom".into()))).unwrap_err();
    assert_eq!(e.message, "boom");
}
