//! Pending elicitations: each server-to-user question waits under its own
//! id until the user answers or it is cancelled. An answer is accepted only
//! from the user the elicitation was bound to; until it is bound, nobody's
//! is (fail-closed).
use std::collections::HashMap;
use vstd::prelude::*;

verus! {

/// What the registry holds of a pending elicitation: the message-content
/// row it belongs to (if any) and the owning user once bound.
pub type PendingView = Map<u128, (Option<u128>, Option<u128>)>;

/// A pending elicitation: where its answer goes (`reply`), its content row
/// and its owner.
pub struct ElicitationEntry<S> {
    pub reply: S,
    pub content_id: Option<u128>,
    pub owner_user_id: Option<u128>,
}

/// The registry after `register(id, content_id)`: a fresh, unbound entry.
pub open spec fn registered(m: PendingView, id: u128, content_id: Option<u128>) -> PendingView {
    m.insert(id, (content_id, None))
}

/// The registry after `bind_owner(id, user)`: the entry, if any, is bound
/// to `user`.
pub open spec fn bound(m: PendingView, id: u128, user: u128) -> PendingView {
    if m.contains_key(id) {
        m.insert(id, (m[id].0, Some(user)))
    } else {
        m
    }
}

/// `owner_matches(id, user)`: `None` for an unknown elicitation, else
/// whether it is bound to `user`.
pub open spec fn owner_check(m: PendingView, id: u128, user: u128) -> Option<bool> {
    if m.contains_key(id) {
        Some(m[id].1 == Some(user))
    } else {
        None
    }
}

/// `respond(id)` / `remove(id)`: the registry without the entry, whether
/// it was there, and its content row.
pub open spec fn taken(m: PendingView, id: u128) -> (PendingView, bool, Option<u128>) {
    if m.contains_key(id) {
        (m.remove(id), true, m[id].0)
    } else {
        (m, false, None)
    }
}

/// The pending elicitations, keyed by their ids.
pub struct ElicitationRegistry<S> {
    entries: HashMap<u128, ElicitationEntry<S>>,
}

impl<S> ElicitationRegistry<S> {
    /// Each pending elicitation's content row and owner.
    pub closed spec fn view(&self) -> PendingView {
        self.entries@.map_values(
            |e: ElicitationEntry<S>| (e.content_id, e.owner_user_id),
        )
    }

    /// Where each pending elicitation's answer goes, as registered.
    pub closed spec fn replies(&self) -> Map<u128, S> {
        self.entries@.map_values(|e: ElicitationEntry<S>| e.reply)
    }

    /// An empty registry.
    pub fn new() -> (r: ElicitationRegistry<S>)
        ensures
            r.view() == Map::<u128, (Option<u128>, Option<u128>)>::empty(),
            r.replies() == Map::<u128, S>::empty(),
    {
        let r = ElicitationRegistry { entries: HashMap::new() };
        assert(r.view() =~= Map::<u128, (Option<u128>, Option<u128>)>::empty());
        assert(r.replies() =~= Map::<u128, S>::empty());
        r
    }

    /// Registers a pending elicitation under `elicitation_id`, not yet
    /// bound to any user (an existing entry under that id is replaced).
    pub fn register(&mut self, elicitation_id: u128, reply: S, content_id: Option<u128>)
        ensures
            final(self).view() == registered(old(self).view(), elicitation_id, content_id),
            final(self).replies() == old(self).replies().insert(elicitation_id, reply),
    {
        let ghost rp = reply;
        let entry = ElicitationEntry { reply, content_id, owner_user_id: None };
        self.entries.insert(elicitation_id, entry);
        assert(self.view() =~= registered(old(self).view(), elicitation_id, content_id));
        assert(self.replies() =~= old(self).replies().insert(elicitation_id, rp));
    }

    /// Binds the owning user to a pending elicitation; nothing happens when
    /// it is no longer pending.
    pub fn bind_owner(&mut self, elicitation_id: u128, user_id: u128)
        ensures
            final(self).view() == bound(old(self).view(), elicitation_id, user_id),
            final(self).replies() == old(self).replies(),
    {
        match self.entries.remove(&elicitation_id) {
            Some(e) => {
                let entry = ElicitationEntry {
                    reply: e.reply,
                    content_id: e.content_id,
                    owner_user_id: Some(user_id),
                };
                self.entries.insert(elicitation_id, entry);
                assert(self.view() =~= bound(old(self).view(), elicitation_id, user_id));
                assert(self.replies() =~= old(self).replies());
            },
            None => {
                assert(self.view() =~= old(self).view());
                assert(self.replies() =~= old(self).replies());
            },
        }
    }

    /// Whether the elicitation exists (`None` when not) and belongs to
    /// `user_id`; an entry not yet bound belongs to nobody.
    pub fn owner_matches(&self, elicitation_id: u128, user_id: u128) -> (r: Option<bool>)
        ensures
            r == owner_check(self.view(), elicitation_id, user_id),
    {
        match self.entries.get(&elicitation_id) {
            Some(e) => Some(e.owner_user_id == Some(user_id)),
            None => None,
        }
    }

    /// Takes the pending elicitation out to deliver the user's answer:
    /// whether it was pending, its content row, and where the answer goes.
    pub fn respond(&mut self, elicitation_id: u128) -> (r: (bool, Option<u128>, Option<S>))
        ensures
            (final(self).view(), r.0, r.1) == taken(old(self).view(), elicitation_id),
            final(self).replies() == old(self).replies().remove(elicitation_id),
            r.2 == (if old(self).replies().contains_key(elicitation_id) {
                Some(old(self).replies()[elicitation_id])
            } else {
                None
            }),
            r.0 == r.2 is Some,
    {
        match self.entries.remove(&elicitation_id) {
            Some(e) => {
                assert(self.view() =~= old(self).view().remove(elicitation_id));
                assert(self.replies() =~= old(self).replies().remove(elicitation_id));
                (true, e.content_id, Some(e.reply))
            },
            None => {
                assert(self.view() =~= old(self).view());
                assert(self.replies() =~= old(self).replies().remove(elicitation_id));
                (false, None, None)
            },
        }
    }

    /// Drops a pending elicitation (its channel closed) and returns its
    /// content row, if it had one.
    pub fn remove(&mut self, elicitation_id: u128) -> (r: Option<u128>)
        ensures
            final(self).view() == taken(old(self).view(), elicitation_id).0,
            final(self).replies() == old(self).replies().remove(elicitation_id),
            r == taken(old(self).view(), elicitation_id).2,
    {
        match self.entries.remove(&elicitation_id) {
            Some(e) => {
                assert(self.view() =~= old(self).view().remove(elicitation_id));
                assert(self.replies() =~= old(self).replies().remove(elicitation_id));
                e.content_id
            },
            None => {
                assert(self.view() =~= old(self).view());
                assert(self.replies() =~= old(self).replies().remove(elicitation_id));
                None
            },
        }
    }
}

/// A freshly registered elicitation matches no user: an answer is refused
/// until the owner is bound (fail-closed).
pub proof fn law_unbound_matches_nobody(
    m: PendingView,
    id: u128,
    content_id: Option<u128>,
    user: u128,
)
    ensures
        owner_check(registered(m, id, content_id), id, user) == Some(false),
{
}

/// Once bound, a pending elicitation matches its owner and no one else.
pub proof fn law_bound_matches_only_owner(m: PendingView, id: u128, owner: u128, user: u128)
    requires
        m.contains_key(id),
    ensures
        owner_check(bound(m, id, owner), id, user) == Some(user == owner),
{
}

/// An answer is delivered at most once: taking a pending elicitation
/// removes it, so a second answer finds nothing and the owner check then
/// reports it unknown.
pub proof fn law_respond_delivers_once(m: PendingView, id: u128, user: u128)
    ensures
        taken(m, id).1 == m.contains_key(id),
        !taken(taken(m, id).0, id).1,
        owner_check(taken(m, id).0, id, user) is None,
{
}

/// Cancelling a registered elicitation gives back its content row and
/// leaves it unknown.
pub proof fn law_remove_returns_content_id(m: PendingView, id: u128, content_id: Option<u128>)
    ensures
        taken(registered(m, id, content_id), id).2 == content_id,
        !taken(registered(m, id, content_id), id).0.contains_key(id),
{
}

/// Binding an elicitation that is no longer pending changes nothing.
pub proof fn law_bind_unknown_is_noop(m: PendingView, id: u128, user: u128)
    requires
        !m.contains_key(id),
    ensures
        bound(m, id, user) == m,
{
}

} // verus!
