use ziee_mcp::events::{McpServerEvent, McpSessionCleanupHandler};

#[test]
fn handler_name_is_stable() {
    assert_eq!(McpSessionCleanupHandler::new().handler_name(), "McpModule::SessionCleanup");
}

#[test]
fn only_deletions_close_sessions() {
    let h = McpSessionCleanupHandler::new();
    assert_eq!(h.cleanup_target(&McpServerEvent::system_server_deleted(5)), Some(5));
    assert_eq!(h.cleanup_target(&McpServerEvent::user_server_deleted(6, 1)), Some(6));
    assert_eq!(h.cleanup_target(&McpServerEvent::system_server_updated(5)), None);
    assert_eq!(h.cleanup_target(&McpServerEvent::user_server_created(5, 1)), None);
    assert_eq!(h.cleanup_target(&McpServerEvent::group_assignment_changed(5)), None);
    assert_eq!(h.cleanup_target(&McpServerEvent::auto_disabled(5, "x".into())), None);
}

#[test]
fn every_event_names_its_server() {
    assert_eq!(McpServerEvent::system_server_created(1), McpServerEvent::SystemServerCreated { server_id: 1 });
    assert_eq!(
        McpServerEvent::user_server_updated(2, 3),
        McpServerEvent::UserServerUpdated { server_id: 2, user_id: 3 }
    );
    assert_eq!(
        McpServerEvent::auto_disabled(4, "probe failed".into()),
        McpServerEvent::AutoDisabled { server_id: 4, reason: "probe failed".into() }
    );
}
