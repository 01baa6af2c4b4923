//! The permissions that gate the server-management API, and the admin
//! check of the runtime endpoints.
use crate::text;
use vstd::prelude::*;

verus! {

/// A permission an endpoint requires: its name, its permission string,
/// what it allows, and the module it belongs to.
pub trait PermissionCheck {
    fn name() -> &'static str;

    fn permission() -> &'static str;

    fn description() -> &'static str;

    fn module() -> &'static str;
}

/// View servers (own and accessible system servers).
pub struct McpServersRead;

/// Create user servers.
pub struct McpServersCreate;

/// Edit user servers.
pub struct McpServersEdit;

/// Delete user servers.
pub struct McpServersDelete;

/// View system servers.
pub struct McpServersAdminRead;

/// Create system servers.
pub struct McpServersAdminCreate;

/// Edit system servers and their group assignments.
pub struct McpServersAdminEdit;

/// Delete system servers.
pub struct McpServersAdminDelete;

/// Edit the user policy (allowed transports and the sandbox flavor forced
/// on user stdio servers).
pub struct McpUserPolicyEdit;

impl PermissionCheck for McpServersRead {
    fn name() -> (r: &'static str) ensures r@ == "McpServersRead"@, { "McpServersRead" }
    fn permission() -> (r: &'static str) ensures r@ == "mcp_servers::read"@, { "mcp_servers::read" }
    fn description() -> (r: &'static str) ensures r@ == "View MCP servers"@, { "View MCP servers" }
    fn module() -> (r: &'static str) ensures r@ == "mcp"@, { "mcp" }
}

impl PermissionCheck for McpServersCreate {
    fn name() -> (r: &'static str) ensures r@ == "McpServersCreate"@, { "McpServersCreate" }
    fn permission() -> (r: &'static str) ensures r@ == "mcp_servers::create"@, { "mcp_servers::create" }
    fn description() -> (r: &'static str) ensures r@ == "Create MCP servers"@, { "Create MCP servers" }
    fn module() -> (r: &'static str) ensures r@ == "mcp"@, { "mcp" }
}

impl PermissionCheck for McpServersEdit {
    fn name() -> (r: &'static str) ensures r@ == "McpServersEdit"@, { "McpServersEdit" }
    fn permission() -> (r: &'static str) ensures r@ == "mcp_servers::edit"@, { "mcp_servers::edit" }
    fn description() -> (r: &'static str) ensures r@ == "Edit MCP servers"@, { "Edit MCP servers" }
    fn module() -> (r: &'static str) ensures r@ == "mcp"@, { "mcp" }
}

impl PermissionCheck for McpServersDelete {
    fn name() -> (r: &'static str) ensures r@ == "McpServersDelete"@, { "McpServersDelete" }
    fn permission() -> (r: &'static str) ensures r@ == "mcp_servers::delete"@, { "mcp_servers::delete" }
    fn description() -> (r: &'static str) ensures r@ == "Delete MCP servers"@, { "Delete MCP servers" }
    fn module() -> (r: &'static str) ensures r@ == "mcp"@, { "mcp" }
}

impl PermissionCheck for McpServersAdminRead {
    fn name() -> (r: &'static str) ensures r@ == "McpServersAdminRead"@, { "McpServersAdminRead" }
    fn permission() -> (r: &'static str) ensures r@ == "mcp_servers_admin::read"@, { "mcp_servers_admin::read" }
    fn description() -> (r: &'static str) ensures r@ == "View system MCP servers"@, { "View system MCP servers" }
    fn module() -> (r: &'static str) ensures r@ == "mcp"@, { "mcp" }
}

impl PermissionCheck for McpServersAdminCreate {
    fn name() -> (r: &'static str) ensures r@ == "McpServersAdminCreate"@, { "McpServersAdminCreate" }
    fn permission() -> (r: &'static str) ensures r@ == "mcp_servers_admin::create"@, { "mcp_servers_admin::create" }
    fn description() -> (r: &'static str) ensures r@ == "Create system MCP servers"@, { "Create system MCP servers" }
    fn module() -> (r: &'static str) ensures r@ == "mcp"@, { "mcp" }
}

impl PermissionCheck for McpServersAdminEdit {
    fn name() -> (r: &'static str) ensures r@ == "McpServersAdminEdit"@, { "McpServersAdminEdit" }
    fn permission() -> (r: &'static str) ensures r@ == "mcp_servers_admin::edit"@, { "mcp_servers_admin::edit" }
    fn description() -> (r: &'static str)
        ensures r@ == "Edit system MCP servers and manage group assignments"@,
    { "Edit system MCP servers and manage group assignments" }
    fn module() -> (r: &'static str) ensures r@ == "mcp"@, { "mcp" }
}

impl PermissionCheck for McpServersAdminDelete {
    fn name() -> (r: &'static str) ensures r@ == "McpServersAdminDelete"@, { "McpServersAdminDelete" }
    fn permission() -> (r: &'static str) ensures r@ == "mcp_servers_admin::delete"@, { "mcp_servers_admin::delete" }
    fn description() -> (r: &'static str) ensures r@ == "Delete system MCP servers"@, { "Delete system MCP servers" }
    fn module() -> (r: &'static str) ensures r@ == "mcp"@, { "mcp" }
}

impl PermissionCheck for McpUserPolicyEdit {
    fn name() -> (r: &'static str) ensures r@ == "McpUserPolicyEdit"@, { "McpUserPolicyEdit" }
    fn permission() -> (r: &'static str) ensures r@ == "mcp_user_policy::edit"@, { "mcp_user_policy::edit" }
    fn description() -> (r: &'static str)
        ensures r@ == "Edit MCP user policy (allowed transports + sandbox flavor)"@,
    { "Edit MCP user policy (allowed transports + sandbox flavor)" }
    fn module() -> (r: &'static str) ensures r@ == "mcp"@, { "mcp" }
}

/// The four system-server permissions that grant admin-level access to the
/// runtime endpoints.
pub open spec fn admin_permissions() -> Seq<Seq<char>> {
    seq![
        "mcp_servers_admin::read"@,
        "mcp_servers_admin::create"@,
        "mcp_servers_admin::edit"@,
        "mcp_servers_admin::delete"@,
    ]
}

/// Admin-level access: an admin user always has it; anyone else needs one
/// of the four system-server permissions among `granted`, the permissions
/// the user's groups grant as the permission checker resolves them.
pub fn has_admin_access(is_admin: bool, granted: &Vec<String>) -> (r: bool)
    ensures
        r == (is_admin || exists|i: int|
            0 <= i < granted@.len() && admin_permissions().contains(#[trigger] granted@[i]@)),
{
    if is_admin {
        return true;
    }
    let mut i: usize = 0;
    while i < granted.len()
        invariant
            i <= granted@.len(),
            forall|j: int| 0 <= j < i ==> !admin_permissions().contains(#[trigger] granted@[j]@),
        decreases granted@.len() - i,
    {
        let g = granted[i].as_str();
        let hit = text::str_eq(g, "mcp_servers_admin::read") || text::str_eq(
            g,
            "mcp_servers_admin::create",
        ) || text::str_eq(g, "mcp_servers_admin::edit") || text::str_eq(
            g,
            "mcp_servers_admin::delete",
        );
        proof {
            let l = admin_permissions();
            if hit {
                if g@ == l[0] {
                    assert(l[0] == g@);
                } else if g@ == l[1] {
                    assert(l[1] == g@);
                } else if g@ == l[2] {
                    assert(l[2] == g@);
                } else {
                    assert(l[3] == g@);
                }
            } else {
                assert forall|k: int| 0 <= k < l.len() implies l[k] != g@ by {}
            }
        }
        if hit {
            return true;
        }
        i = i + 1;
    }
    false
}

} // verus!
