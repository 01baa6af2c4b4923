//! The MCP settings of a conversation or a project: the approval mode,
//! the auto-approved tools, the disabled servers and the loop settings,
//! with the defaults a scope without a row reads as and the merge an
//! update performs.
use crate::json::{jview, Json, JsonV};
use vstd::prelude::*;
use vstd::string::StringExecFns;

verus! {

/// Which scope a settings row belongs to.
#[derive(Debug, Clone, Copy, PartialEq, Eq, Structural)]
pub enum McpScope {
    Conversation(u128),
    Project(u128),
}

impl McpScope {
    /// The conversation, for a conversation scope.
    pub fn conversation_id(&self) -> (r: Option<u128>)
        ensures
            r == match *self {
                McpScope::Conversation(id) => Some(id),
                McpScope::Project(_) => None,
            },
    {
        match self {
            McpScope::Conversation(id) => Some(*id),
            McpScope::Project(_) => None,
        }
    }

    /// The project, for a project scope.
    pub fn project_id(&self) -> (r: Option<u128>)
        ensures
            r == match *self {
                McpScope::Project(id) => Some(id),
                McpScope::Conversation(_) => None,
            },
    {
        match self {
            McpScope::Project(id) => Some(*id),
            McpScope::Conversation(_) => None,
        }
    }
}

/// The approval mode of a scope without a row (the column default).
pub const DEFAULT_APPROVAL_MODE: &'static str = "manual_approve";

/// One settings row. The list-valued columns are kept as JSON; instants
/// are Unix milliseconds.
#[derive(Debug)]
pub struct McpSettings {
    pub id: u128,
    pub scope: McpScope,
    pub user_id: u128,
    pub approval_mode: String,
    pub auto_approved_tools: Json,
    pub disabled_servers: Json,
    pub loop_settings: Option<Json>,
    pub created_at: i64,
    pub updated_at: i64,
}

/// An update of a scope's settings: `None` keeps the saved value (or the
/// default on insert); `loop_settings` is `Some(None)` to clear it.
#[derive(Debug)]
pub struct McpSettingsUpdate {
    pub approval_mode: Option<String>,
    pub auto_approved_tools: Option<Json>,
    pub disabled_servers: Option<Json>,
    pub loop_settings: Option<Option<Json>>,
}

/// The settings values a row is written with.
#[derive(Debug)]
pub struct SettingsPayload {
    pub approval_mode: String,
    pub auto_approved_tools: Json,
    pub disabled_servers: Json,
    pub loop_settings: Option<Json>,
}

/// The view of optional JSON.
pub open spec fn opt_json(o: Option<Json>) -> Option<JsonV> {
    match o {
        Some(j) => Some(jview(j)),
        None => None,
    }
}

/// The settings a scope without a row reads as: no id, the default
/// approval mode, no auto-approved tool, no disabled server, no loop
/// settings; `now_ms` stamps it.
pub fn default_settings(scope: McpScope, user_id: u128, now_ms: i64) -> (r: McpSettings)
    ensures
        r.id == 0,
        r.scope == scope,
        r.user_id == user_id,
        r.approval_mode@ == DEFAULT_APPROVAL_MODE@,
        jview(r.auto_approved_tools) == JsonV::Array(Seq::empty()),
        jview(r.disabled_servers) == JsonV::Array(Seq::empty()),
        r.loop_settings is None,
        r.created_at == now_ms,
        r.updated_at == now_ms,
{
    let r = McpSettings {
        id: 0,
        scope,
        user_id,
        approval_mode: String::from_str(DEFAULT_APPROVAL_MODE),
        auto_approved_tools: Json::Array(Vec::new()),
        disabled_servers: Json::Array(Vec::new()),
        loop_settings: None,
        created_at: now_ms,
        updated_at: now_ms,
    };
    proof {
        crate::json::lemma_items_view(Seq::<Json>::empty());
    }
    r
}

/// What an upsert writes: each field of the update when given, else the
/// saved row's, else the default (`loop_settings` given as `Some(None)`
/// clears it).
pub fn merged_payload(existing: Option<&McpSettings>, update: McpSettingsUpdate) -> (r: SettingsPayload)
    ensures
        r.approval_mode@ == match update.approval_mode {
            Some(m) => m@,
            None => match existing {
                Some(e) => e.approval_mode@,
                None => DEFAULT_APPROVAL_MODE@,
            },
        },
        jview(r.auto_approved_tools) == match update.auto_approved_tools {
            Some(t) => jview(t),
            None => match existing {
                Some(e) => jview(e.auto_approved_tools),
                None => JsonV::Array(Seq::empty()),
            },
        },
        jview(r.disabled_servers) == match update.disabled_servers {
            Some(d) => jview(d),
            None => match existing {
                Some(e) => jview(e.disabled_servers),
                None => JsonV::Array(Seq::empty()),
            },
        },
        opt_json(r.loop_settings) == match update.loop_settings {
            Some(l) => opt_json(l),
            None => match existing {
                Some(e) => opt_json(e.loop_settings),
                None => None,
            },
        },
{
    proof {
        crate::json::lemma_items_view(Seq::<Json>::empty());
    }
    let approval_mode = match update.approval_mode {
        Some(m) => m,
        None => match existing {
            Some(e) => e.approval_mode.clone(),
            None => String::from_str(DEFAULT_APPROVAL_MODE),
        },
    };
    let auto_approved_tools = match update.auto_approved_tools {
        Some(t) => t,
        None => match existing {
            Some(e) => crate::json::copy(&e.auto_approved_tools),
            None => Json::Array(Vec::new()),
        },
    };
    let disabled_servers = match update.disabled_servers {
        Some(d) => d,
        None => match existing {
            Some(e) => crate::json::copy(&e.disabled_servers),
            None => Json::Array(Vec::new()),
        },
    };
    let loop_settings = match update.loop_settings {
        Some(l) => l,
        None => match existing {
            Some(e) => match &e.loop_settings {
                Some(l) => Some(crate::json::copy(l)),
                None => None,
            },
            None => None,
        },
    };
    SettingsPayload { approval_mode, auto_approved_tools, disabled_servers, loop_settings }
}

} // verus!
