//! Server lifecycle events, and the handler that tears down a deleted
//! server's pooled session.
use std::sync::Arc;
use vstd::prelude::*;

verus! {

/// Something that happened to a configured server.
#[derive(Debug, Clone, PartialEq, Eq)]
pub enum McpServerEvent {
    SystemServerCreated { server_id: u128 },
    UserServerCreated { server_id: u128, user_id: u128 },
    SystemServerUpdated { server_id: u128 },
    UserServerUpdated { server_id: u128, user_id: u128 },
    SystemServerDeleted { server_id: u128 },
    UserServerDeleted { server_id: u128, user_id: u128 },
    GroupAssignmentChanged { server_id: u128 },
    /// The server failed its connection probe and was disabled.
    AutoDisabled { server_id: u128, reason: String },
}

impl McpServerEvent {
    pub fn system_server_created(server_id: u128) -> (r: McpServerEvent)
        ensures
            r == (McpServerEvent::SystemServerCreated { server_id }),
    {
        McpServerEvent::SystemServerCreated { server_id }
    }

    pub fn user_server_created(server_id: u128, user_id: u128) -> (r: McpServerEvent)
        ensures
            r == (McpServerEvent::UserServerCreated { server_id, user_id }),
    {
        McpServerEvent::UserServerCreated { server_id, user_id }
    }

    pub fn system_server_updated(server_id: u128) -> (r: McpServerEvent)
        ensures
            r == (McpServerEvent::SystemServerUpdated { server_id }),
    {
        McpServerEvent::SystemServerUpdated { server_id }
    }

    pub fn user_server_updated(server_id: u128, user_id: u128) -> (r: McpServerEvent)
        ensures
            r == (McpServerEvent::UserServerUpdated { server_id, user_id }),
    {
        McpServerEvent::UserServerUpdated { server_id, user_id }
    }

    pub fn system_server_deleted(server_id: u128) -> (r: McpServerEvent)
        ensures
            r == (McpServerEvent::SystemServerDeleted { server_id }),
    {
        McpServerEvent::SystemServerDeleted { server_id }
    }

    pub fn user_server_deleted(server_id: u128, user_id: u128) -> (r: McpServerEvent)
        ensures
            r == (McpServerEvent::UserServerDeleted { server_id, user_id }),
    {
        McpServerEvent::UserServerDeleted { server_id, user_id }
    }

    pub fn group_assignment_changed(server_id: u128) -> (r: McpServerEvent)
        ensures
            r == (McpServerEvent::GroupAssignmentChanged { server_id }),
    {
        McpServerEvent::GroupAssignmentChanged { server_id }
    }

    pub fn auto_disabled(server_id: u128, reason: String) -> (r: McpServerEvent)
        ensures
            r matches McpServerEvent::AutoDisabled { server_id: s, reason: m } && s == server_id
                && m@ == reason@,
    {
        McpServerEvent::AutoDisabled { server_id, reason }
    }
}

/// Evicts the pooled session of a server that was deleted.
pub struct McpSessionCleanupHandler;

impl McpSessionCleanupHandler {
    /// The shared handler.
    pub fn new() -> (r: Arc<McpSessionCleanupHandler>)
        ensures
            *r == McpSessionCleanupHandler,
    {
        Arc::new(McpSessionCleanupHandler)
    }

    /// The name the event bus logs the handler under.
    pub fn handler_name(&self) -> (r: &'static str)
        ensures
            r@ == "McpModule::SessionCleanup"@,
    {
        "McpModule::SessionCleanup"
    }

    /// The server whose session an event asks to close: that of a deleted
    /// server, system or user-owned; no other event closes anything.
    pub fn cleanup_target(&self, event: &McpServerEvent) -> (r: Option<u128>)
        ensures
            r == match *event {
                McpServerEvent::SystemServerDeleted { server_id } => Some(server_id),
                McpServerEvent::UserServerDeleted { server_id, .. } => Some(server_id),
                _ => None,
            },
    {
        match event {
            McpServerEvent::SystemServerDeleted { server_id } => Some(*server_id),
            McpServerEvent::UserServerDeleted { server_id, .. } => Some(*server_id),
            _ => None,
        }
    }
}

} // verus!
