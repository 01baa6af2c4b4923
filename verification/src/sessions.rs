//! Limits on concurrent sampling sessions per server. A session takes a
//! slot while it runs and gives it back when it ends; a server with a
//! positive limit never has more sessions than its limit.
use crate::error::{McpError, STATUS_BAD_REQUEST};
use std::collections::HashMap;
use vstd::prelude::*;
use vstd::string::StringExecFns;

verus! {

/// Active session counts per server; a server without sessions has no
/// entry.
pub type CountsView = Map<u128, u32>;

/// The number of active sessions of `id`.
pub open spec fn count_of(m: CountsView, id: u128) -> u32 {
    if m.contains_key(id) {
        m[id]
    } else {
        0
    }
}

/// `acquire(id, max)`: the new counts, whether it succeeded, and whether
/// the session holds a slot. Without a positive limit the session is
/// unlimited and holds no slot; at the limit it is refused.
pub open spec fn acquired(m: CountsView, id: u128, max: Option<i32>) -> (CountsView, bool, bool) {
    match max {
        None => (m, true, false),
        Some(x) => if x <= 0 {
            (m, true, false)
        } else if count_of(m, id) >= x {
            (m, false, false)
        } else {
            (m.insert(id, (count_of(m, id) + 1) as u32), true, true)
        },
    }
}

/// The counts after a session of `id` ends: a slot it held is given back,
/// and a server left without sessions loses its entry.
pub open spec fn released(m: CountsView, id: u128, holds_slot: bool) -> CountsView {
    if holds_slot && m.contains_key(id) {
        let c = if m[id] > 0 {
            (m[id] - 1) as u32
        } else {
            0u32
        };
        if c == 0 {
            m.remove(id)
        } else {
            m.insert(id, c)
        }
    } else {
        m
    }
}

/// Every server with an entry has at least one session.
pub open spec fn counts_positive(m: CountsView) -> bool {
    forall|k: u128| m.contains_key(k) ==> #[trigger] m[k] > 0
}

/// A running sampling session of a server.
#[derive(Debug)]
pub struct SessionGuard {
    pub server_id: u128,
    /// Whether the session counts against the server's limit.
    pub holds_slot: bool,
}

/// Active sampling sessions per server.
pub struct SessionCounter {
    counts: HashMap<u128, u32>,
}

impl SessionCounter {
    /// The active session count of each server that has sessions.
    pub closed spec fn view(&self) -> CountsView {
        self.counts@
    }

    /// Every server with an entry has at least one session.
    #[verifier::type_invariant]
    spec fn counts_kept_positive(self) -> bool {
        counts_positive(self.counts@)
    }

    /// No active session anywhere.
    pub fn new() -> (r: SessionCounter)
        ensures
            r.view() == Map::<u128, u32>::empty(),
            counts_positive(r.view()),
    {
        SessionCounter { counts: HashMap::new() }
    }

    /// Starts a sampling session of `server_id` under the limit `max`
    /// (`None`, or not positive, for unlimited): refused with `400
    /// SAMPLING_CAPACITY_EXCEEDED` when the server is at its limit.
    pub fn acquire_session(&mut self, server_id: u128, max: Option<i32>) -> (r: Result<
        SessionGuard,
        McpError,
    >)
        ensures
            (final(self).view(), r is Ok, r is Ok && r->Ok_0.holds_slot) == acquired(
                old(self).view(),
                server_id,
                max,
            ),
            r matches Ok(g) ==> g.server_id == server_id,
            counts_positive(old(self).view()),
            counts_positive(final(self).view()),
            r matches Ok(g) ==> released(final(self).view(), server_id, g.holds_slot) == old(
                self,
            ).view(),
            r matches Err(e) ==> e.status == STATUS_BAD_REQUEST && e.code@
                == "SAMPLING_CAPACITY_EXCEEDED"@ && e.message@
                == "This MCP server is at capacity. Please try again shortly."@,
    {
        proof {
            use_type_invariant(&*self);
            law_release_undoes_acquire(self.view(), server_id, max);
        }
        let limit: u32 = match max {
            None => {
                return Ok(SessionGuard { server_id, holds_slot: false });
            },
            Some(m) => {
                if m <= 0 {
                    return Ok(SessionGuard { server_id, holds_slot: false });
                }
                m as u32
            },
        };
        let count: u32 = match self.counts.get(&server_id) {
            Some(c) => *c,
            None => 0,
        };
        if count >= limit {
            return Err(
                McpError::bad_request(
                    "SAMPLING_CAPACITY_EXCEEDED",
                    String::from_str("This MCP server is at capacity. Please try again shortly."),
                ),
            );
        }
        let mut counts: HashMap<u128, u32> = HashMap::new();
        std::mem::swap(&mut counts, &mut self.counts);
        counts.insert(server_id, count + 1);
        self.counts = counts;
        Ok(SessionGuard { server_id, holds_slot: true })
    }

    /// Ends a session: gives its slot back.
    pub fn release(&mut self, guard: SessionGuard)
        ensures
            final(self).view() == released(old(self).view(), guard.server_id, guard.holds_slot),
            counts_positive(old(self).view()),
            counts_positive(final(self).view()),
    {
        proof {
            use_type_invariant(&*self);
        }
        if !guard.holds_slot {
            return;
        }
        let id = guard.server_id;
        let current: Option<u32> = match self.counts.get(&id) {
            Some(c) => Some(*c),
            None => None,
        };
        if let Some(c) = current {
            let next: u32 = if c > 0 {
                c - 1
            } else {
                0
            };
            let mut counts: HashMap<u128, u32> = HashMap::new();
            std::mem::swap(&mut counts, &mut self.counts);
            if next == 0 {
                counts.remove(&id);
            } else {
                counts.insert(id, next);
            }
            self.counts = counts;
        }
    }
}

/// A session that takes a slot never brings its server above the limit.
pub proof fn law_acquire_stays_within_limit(m: CountsView, id: u128, max: i32)
    requires
        max > 0,
        acquired(m, id, Some(max)).2,
    ensures
        count_of(acquired(m, id, Some(max)).0, id) <= max,
{
}

/// A server at its limit refuses further sessions and keeps its count.
pub proof fn law_full_server_refuses(m: CountsView, id: u128, max: i32)
    requires
        max > 0,
        count_of(m, id) >= max,
    ensures
        !acquired(m, id, Some(max)).1,
        acquired(m, id, Some(max)).0 == m,
{
}

/// Ending a session that took a slot restores the counts exactly as they
/// were before it started.
pub proof fn law_release_undoes_acquire(m: CountsView, id: u128, max: Option<i32>)
    requires
        counts_positive(m),
    ensures
        ({
            let (m2, _, holds) = acquired(m, id, max);
            released(m2, id, holds) == m
        }),
{
    let (m2, _, holds) = acquired(m, id, max);
    if holds {
        if m.contains_key(id) {
            assert(released(m2, id, holds) =~= m);
        } else {
            assert(released(m2, id, holds) =~= m);
        }
    }
}

/// Unlimited sessions (no positive limit) are always accepted and hold no
/// slot.
pub proof fn law_unlimited_always_accepted(m: CountsView, id: u128, max: Option<i32>)
    requires
        max matches Some(x) ==> x <= 0,
    ensures
        acquired(m, id, max) == (m, true, false),
{
}

} // verus!
