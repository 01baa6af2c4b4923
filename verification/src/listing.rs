//! Server listing queries: page defaults, the search term, and the status
//! filter each list understands.
use crate::headers;
use crate::models::McpServer;
use vstd::prelude::*;

verus! {

/// The first page, when the query names none.
pub fn default_page() -> (r: u32)
    ensures
        r == 1,
{
    1
}

/// Twenty servers a page, when the query names no page size.
pub fn default_per_page() -> (r: u32)
    ensures
        r == 20,
{
    20
}

/// Query of the system-server list.
#[derive(Debug, Clone, PartialEq, Eq)]
pub struct ListSystemServersQuery {
    pub page: u32,
    pub per_page: u32,
    pub search: Option<String>,
    /// `enabled` or `disabled`; anything else lists every server.
    pub status: Option<String>,
}

/// Query of the accessible-server list (own and group-assigned).
#[derive(Debug, Clone, PartialEq, Eq)]
pub struct ListAccessibleServersQuery {
    pub page: u32,
    pub per_page: u32,
    pub search: Option<String>,
    /// `enabled`, `disabled`, `system` or `user`; anything else lists
    /// every server.
    pub status: Option<String>,
}

/// The search term a list uses: the trimmed term, or none when it is
/// absent or blank.
pub fn normalize_search(search: Option<&str>) -> (r: Option<String>)
    ensures
        match search {
            None => r is None,
            Some(s) => if crate::text::trim(s@).len() == 0 {
                r is None
            } else {
                r matches Some(t) && t@ == crate::text::trim(s@)
            },
        },
{
    match search {
        None => None,
        Some(s) => {
            let t = headers::trim_string(s);
            if t.unicode_len() == 0 {
                None
            } else {
                Some(t)
            }
        },
    }
}

/// The `enabled` filter of the system-server list.
pub fn system_status_filter(status: Option<&str>) -> (r: Option<bool>)
    ensures
        r == match status {
            Some(s) => if s@ == "enabled"@ {
                Some(true)
            } else if s@ == "disabled"@ {
                Some(false)
            } else {
                None
            },
            None => None,
        },
{
    match status {
        Some(s) => if crate::text::str_eq(s, "enabled") {
            Some(true)
        } else if crate::text::str_eq(s, "disabled") {
            Some(false)
        } else {
            None
        },
        None => None,
    }
}

/// The `(enabled, is_system)` filters of the accessible-server list.
pub fn accessible_status_filter(status: Option<&str>) -> (r: (Option<bool>, Option<bool>))
    ensures
        r == match status {
            Some(s) => if s@ == "enabled"@ {
                (Some(true), None)
            } else if s@ == "disabled"@ {
                (Some(false), None)
            } else if s@ == "system"@ {
                (None, Some(true))
            } else if s@ == "user"@ {
                (None, Some(false))
            } else {
                (None, None)
            },
            None => (None, None),
        },
{
    match status {
        Some(s) => if crate::text::str_eq(s, "enabled") {
            (Some(true), None)
        } else if crate::text::str_eq(s, "disabled") {
            (Some(false), None)
        } else if crate::text::str_eq(s, "system") {
            (None, Some(true))
        } else if crate::text::str_eq(s, "user") {
            (None, Some(false))
        } else {
            (None, None)
        },
        None => (None, None),
    }
}

/// The number of pages `total` items fill, `per_page` a page (the last
/// page may be partial).
pub fn total_pages(total: i64, per_page: i64) -> (r: i64)
    requires
        total >= 0,
        per_page > 0,
        total + per_page - 1 <= i64::MAX,
    ensures
        r == (total + per_page - 1) / (per_page as int),
        r * per_page >= total,
        (r - 1) * per_page < total || r == 0,
{
    let r = (total + (per_page - 1)) / per_page;
    assert(r * per_page >= total && ((r - 1) * per_page < total || r == 0)) by (nonlinear_arith)
        requires
            r == (total + per_page - 1) / (per_page as int),
            total >= 0,
            per_page > 0,
    ;
    r
}

/// A server as a user's list shows it: a system server's URL, configured
/// by an admin, is left out; everything else is shown as it is.
pub fn user_listing_view(server: McpServer) -> (r: McpServer)
    ensures
        r == (McpServer {
            url: if server.is_system {
                None
            } else {
                server.url
            },
            ..server
        }),
{
    let mut s = server;
    if s.is_system {
        s.url = None;
    }
    s
}

} // verus!
