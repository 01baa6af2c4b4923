use ziee_mcp::groups::{affected_servers, membership_diff};
use ziee_mcp::json::Json;
use ziee_mcp::models::McpServerOAuthConfig;
use ziee_mcp::settings::{default_settings, merged_payload, McpScope, McpSettingsUpdate, DEFAULT_APPROVAL_MODE};

#[test]
fn scope_ids() {
    assert_eq!(McpScope::Conversation(3).conversation_id(), Some(3));
    assert_eq!(McpScope::Conversation(3).project_id(), None);
    assert_eq!(McpScope::Project(4).project_id(), Some(4));
    assert_eq!(McpScope::Project(4).conversation_id(), None);
}

#[test]
fn missing_settings_read_as_defaults() {
    let d = default_settings(McpScope::Project(9), 5, 1000);
    assert_eq!(d.id, 0);
    assert_eq!(d.user_id, 5);
    assert_eq!(d.approval_mode, DEFAULT_APPROVAL_MODE);
    assert_eq!(d.approval_mode, "manual_approve");
    assert_eq!(d.auto_approved_tools, Json::Array(vec![]));
    assert_eq!(d.disabled_servers, Json::Array(vec![]));
    assert!(d.loop_settings.is_none());
    assert_eq!((d.created_at, d.updated_at), (1000, 1000));
}

fn empty_update() -> McpSettingsUpdate {
    McpSettingsUpdate { approval_mode: None, auto_approved_tools: None, disabled_servers: None, loop_settings: None }
}

#[test]
fn upsert_merges_update_over_saved_over_defaults() {
    let p = merged_payload(None, empty_update());
    assert_eq!(p.approval_mode, "manual_approve");
    assert_eq!(p.auto_approved_tools, Json::Array(vec![]));
    assert!(p.loop_settings.is_none());

    let mut saved = default_settings(McpScope::Conversation(1), 2, 0);
    saved.approval_mode = "auto_approve".into();
    saved.loop_settings = Some(Json::Number("3".into()));
    let kept = merged_payload(Some(&saved), empty_update());
    assert_eq!(kept.approval_mode, "auto_approve", "an empty update keeps the saved values");
    assert_eq!(kept.loop_settings, Some(Json::Number("3".into())));

    let mut upd = empty_update();
    upd.disabled_servers = Some(Json::Array(vec![Json::Str("x".into())]));
    upd.loop_settings = Some(None);
    let changed = merged_payload(Some(&saved), upd);
    assert_eq!(changed.approval_mode, "auto_approve");
    assert_eq!(changed.disabled_servers, Json::Array(vec![Json::Str("x".into())]));
    assert!(changed.loop_settings.is_none(), "Some(None) clears the loop settings");
}

#[test]
fn group_membership_diff_reaches_the_request() {
    let current = vec![1, 2, 3, 3];
    let requested = vec![3, 4, 4, 5, 1];
    let (add, remove) = membership_diff(&current, &requested);
    assert_eq!(add, vec![4, 5]);
    assert_eq!(remove, vec![2]);
    let mut after: Vec<u128> = current.iter().copied().filter(|x| !remove.contains(x)).collect();
    after.extend(add.iter().copied());
    after.sort();
    after.dedup();
    let mut want = requested.clone();
    want.sort();
    want.dedup();
    assert_eq!(after, want);
    assert_eq!(affected_servers(&add, &remove), vec![4, 5, 2]);
    assert_eq!(affected_servers(&vec![7, 7], &vec![7, 8]), vec![7, 8]);
}

#[test]
fn oauth_config_views() {
    let c = McpServerOAuthConfig {
        server_id: 1,
        client_id: "id".into(),
        client_secret: "".into(),
        scopes: Some("a b".into()),
        resource: None,
        created_at: 5,
        updated_at: 6,
    };
    let r = c.to_response();
    assert!(!r.has_client_secret);
    assert_eq!(r.client_id, "id");
    assert_eq!(r.scopes.as_deref(), Some("a b"));
    let cc = c.into_client_config();
    assert_eq!(cc.client_id, "id");
    assert_eq!(cc.scopes.as_deref(), Some("a b"));
}
