//! Per-tool approval-mode overrides of a system server: an admin may set a
//! tool to be approved automatically, approved manually, or disabled; a
//! tool without an override follows manual approval.
use crate::headers::{field_lookup, fields_view, lex_lt, StrFields};
use crate::object::{keys_sorted, object_insert};
use crate::text;
use vstd::prelude::*;
use vstd::string::StringExecFns;

verus! {

/// How a tool call is approved.
#[derive(Debug, Clone, Copy, PartialEq, Eq, Structural)]
pub enum ApprovalMode {
    AutoApprove,
    ManualApprove,
    Disabled,
}

/// The stored name of a mode.
pub open spec fn mode_name(m: ApprovalMode) -> Seq<char> {
    match m {
        ApprovalMode::AutoApprove => "auto_approve"@,
        ApprovalMode::ManualApprove => "manual_approve"@,
        ApprovalMode::Disabled => "disabled"@,
    }
}

/// The mode a stored name denotes, if any.
pub open spec fn parse_mode(s: Seq<char>) -> Option<ApprovalMode> {
    if s == "auto_approve"@ {
        Some(ApprovalMode::AutoApprove)
    } else if s == "manual_approve"@ {
        Some(ApprovalMode::ManualApprove)
    } else if s == "disabled"@ {
        Some(ApprovalMode::Disabled)
    } else {
        None
    }
}

impl ApprovalMode {
    /// Parses a stored name.
    pub fn parse(s: &str) -> (r: Option<ApprovalMode>)
        ensures
            r == parse_mode(s@),
    {
        if text::str_eq(s, "auto_approve") {
            Some(ApprovalMode::AutoApprove)
        } else if text::str_eq(s, "manual_approve") {
            Some(ApprovalMode::ManualApprove)
        } else if text::str_eq(s, "disabled") {
            Some(ApprovalMode::Disabled)
        } else {
            None
        }
    }

    /// The stored name.
    pub fn as_str(&self) -> (r: &'static str)
        ensures
            r@ == mode_name(*self),
    {
        match self {
            ApprovalMode::AutoApprove => "auto_approve",
            ApprovalMode::ManualApprove => "manual_approve",
            ApprovalMode::Disabled => "disabled",
        }
    }
}

/// A stored mode name reads back as the mode that was stored.
pub proof fn law_mode_name_round_trips(m: ApprovalMode)
    ensures
        parse_mode(mode_name(m)) == Some(m),
{
    reveal_strlit("auto_approve");
    reveal_strlit("manual_approve");
    reveal_strlit("disabled");
    assert("auto_approve"@ != "manual_approve"@ && "auto_approve"@ != "disabled"@
        && "manual_approve"@ != "disabled"@) by {
        assert("auto_approve"@[0] != "manual_approve"@[0]);
        assert("auto_approve"@.len() != "disabled"@.len());
        assert("manual_approve"@.len() != "disabled"@.len());
    }
}

/// The mode of a tool without an override.
pub open spec fn server_default_mode() -> ApprovalMode {
    ApprovalMode::ManualApprove
}

/// The stored override of `tool`: the value of the first entry named so.
pub open spec fn override_of(overrides: Seq<(Seq<char>, Seq<char>)>, tool: Seq<char>) -> Option<
    Seq<char>,
>
    decreases overrides.len(),
{
    if overrides.len() == 0 {
        None
    } else if overrides[0].0 == tool {
        Some(overrides[0].1)
    } else {
        override_of(overrides.drop_first(), tool)
    }
}

/// A tool's effective mode and whether it comes from an override: a stored
/// override that names a mode wins; anything else falls back to the server
/// default.
pub open spec fn effective(overrides: Seq<(Seq<char>, Seq<char>)>, tool: Seq<char>) -> (
    ApprovalMode,
    bool,
) {
    match override_of(overrides, tool) {
        Some(s) => match parse_mode(s) {
            Some(m) => (m, true),
            None => (server_default_mode(), false),
        },
        None => (server_default_mode(), false),
    }
}

/// The view of stored overrides.
pub open spec fn overrides_view(o: Seq<(String, String)>) -> Seq<(Seq<char>, Seq<char>)> {
    o.map_values(|p: (String, String)| (p.0@, p.1@))
}

/// A tool's effective mode from the stored overrides.
pub fn resolve_effective(overrides: &Vec<(String, String)>, tool: &str) -> (r: (ApprovalMode, bool))
    ensures
        r == effective(overrides_view(overrides@), tool@),
{
    let ghost ov = overrides_view(overrides@);
    let mut i: usize = 0;
    assert(ov.skip(0) =~= ov);
    while i < overrides.len()
        invariant
            i <= overrides@.len(),
            ov == overrides_view(overrides@),
            override_of(ov, tool@) == override_of(ov.skip(i as int), tool@),
        decreases overrides@.len() - i,
    {
        assert(ov.skip(i as int)[0] == ov[i as int]);
        if text::str_eq(overrides[i].0.as_str(), tool) {
            return match ApprovalMode::parse(overrides[i].1.as_str()) {
                Some(m) => (m, true),
                None => (ApprovalMode::ManualApprove, false),
            };
        }
        assert(ov.skip(i as int).drop_first() =~= ov.skip(i + 1));
        i = i + 1;
    }
    assert(ov.skip(i as int).len() == 0);
    (ApprovalMode::ManualApprove, false)
}

/// One advertised tool with its effective mode.
#[derive(Debug, Clone, PartialEq, Eq)]
pub struct ToolApprovalEntry {
    pub tool_name: String,
    pub description: Option<String>,
    pub effective_mode: ApprovalMode,
    pub has_override: bool,
}

/// A request to set (`Some`) or clear (`None`) a tool's override.
#[derive(Debug, Clone, PartialEq, Eq)]
pub struct SetToolApprovalRequest {
    pub mode: Option<ApprovalMode>,
}

/// The view of an approval entry: name, description, mode, override flag.
pub open spec fn entry_view(e: ToolApprovalEntry) -> (Seq<char>, Option<Seq<char>>, ApprovalMode, bool) {
    (e.tool_name@, crate::auth::opt_view(e.description), e.effective_mode, e.has_override)
}

/// Whether one of the advertised tools is named `k`.
pub open spec fn advertised_name(adv: Seq<(String, Option<String>)>, k: Seq<char>) -> bool {
    exists|i: int| 0 <= i < adv.len() && #[trigger] adv[i].0@ == k
}

/// Whether one of the overrides is keyed `k`.
pub open spec fn override_key(ov: Seq<(Seq<char>, Seq<char>)>, k: Seq<char>) -> bool {
    exists|i: int| 0 <= i < ov.len() && #[trigger] ov[i].0 == k
}

/// Whether `name` is one of the advertised tools.
fn is_advertised(adv: &Vec<(String, Option<String>)>, name: &String) -> (r: bool)
    ensures
        r == advertised_name(adv@, name@),
{
    let mut i: usize = 0;
    while i < adv.len()
        invariant
            i <= adv@.len(),
            forall|j: int| 0 <= j < i ==> adv@[j].0@ != name@,
        decreases adv@.len() - i,
    {
        if adv[i].0 == *name {
            assert(adv@[i as int].0@ == name@);
            return true;
        }
        i = i + 1;
    }
    false
}

/// The approval list of a system server: each advertised tool (name and
/// description, in the order advertised) with its effective mode; then,
/// sorted by name, each override-keyed tool that is not advertised (a stale
/// override, or every override when the tools could not be listed), so an
/// admin can still see and clear it.
pub fn approval_entries(advertised: &Vec<(String, Option<String>)>, overrides: &Vec<(String, String)>) -> (r:
    Vec<ToolApprovalEntry>)
    ensures
        r@.len() >= advertised@.len(),
        forall|i: int|
            0 <= i < advertised@.len() ==> #[trigger] entry_view(r@[i]) == (
                advertised@[i].0@,
                crate::auth::opt_view(advertised@[i].1),
                effective(overrides_view(overrides@), advertised@[i].0@).0,
                effective(overrides_view(overrides@), advertised@[i].0@).1,
            ),
        forall|i: int|
            advertised@.len() <= i < r@.len() ==> #[trigger] entry_view(r@[i]) == (
                r@[i].tool_name@,
                None::<Seq<char>>,
                effective(overrides_view(overrides@), r@[i].tool_name@).0,
                effective(overrides_view(overrides@), r@[i].tool_name@).1,
            ),
        forall|i: int, j: int|
            advertised@.len() <= i < j < r@.len() ==> lex_lt(
                (#[trigger] r@[i]).tool_name@,
                (#[trigger] r@[j]).tool_name@,
            ),
        forall|k: Seq<char>|
            (exists|i: int| advertised@.len() <= i < r@.len() && #[trigger] r@[i].tool_name@ == k)
                <==> (override_key(overrides_view(overrides@), k) && !advertised_name(
                advertised@,
                k,
            )),
{
    let ghost ov = overrides_view(overrides@);
    let mut out: Vec<ToolApprovalEntry> = Vec::new();
    let mut i: usize = 0;
    while i < advertised.len()
        invariant
            i <= advertised@.len(),
            ov == overrides_view(overrides@),
            out@.len() == i,
            forall|q: int|
                0 <= q < i ==> #[trigger] entry_view(out@[q]) == (
                    advertised@[q].0@,
                    crate::auth::opt_view(advertised@[q].1),
                    effective(ov, advertised@[q].0@).0,
                    effective(ov, advertised@[q].0@).1,
                ),
        decreases advertised@.len() - i,
    {
        let (mode, has) = resolve_effective(overrides, advertised[i].0.as_str());
        let description = match &advertised[i].1 {
            Some(d) => Some(d.clone()),
            None => None,
        };
        out.push(
            ToolApprovalEntry {
                tool_name: advertised[i].0.clone(),
                description,
                effective_mode: mode,
                has_override: has,
            },
        );
        i = i + 1;
    }
    let mut extra: StrFields = Vec::new();
    let mut j: usize = 0;
    while j < overrides.len()
        invariant
            j <= overrides@.len(),
            ov == overrides_view(overrides@),
            keys_sorted(fields_view(extra@)),
            forall|k: Seq<char>|
                (#[trigger] field_lookup(fields_view(extra@), k) is Some) <==> ((exists|q: int|
                    0 <= q < j && #[trigger] ov[q].0 == k) && !advertised_name(advertised@, k)),
        decreases overrides@.len() - j,
    {
        let key = &overrides[j].0;
        if !is_advertised(advertised, key) {
            object_insert(&mut extra, key.clone(), None);
        }
        proof {
            assert(ov[j as int].0 == key@);
            assert forall|k: Seq<char>|
                (#[trigger] field_lookup(fields_view(extra@), k) is Some) <==> ((exists|q: int|
                    0 <= q < j + 1 && #[trigger] ov[q].0 == k) && !advertised_name(advertised@, k)) by {
                if k == key@ {
                } else {
                    if exists|q: int| 0 <= q < j + 1 && #[trigger] ov[q].0 == k {
                        let q = choose|q: int| 0 <= q < j + 1 && #[trigger] ov[q].0 == k;
                        assert(q < j);
                    }
                }
            }
        }
        j = j + 1;
    }
    let ghost n0 = out@.len();
    let ghost xv = fields_view(extra@);
    let mut t: usize = 0;
    while t < extra.len()
        invariant
            t <= extra@.len(),
            xv == fields_view(extra@),
            xv.len() == extra@.len(),
            keys_sorted(xv),
            ov == overrides_view(overrides@),
            n0 == advertised@.len(),
            out@.len() == n0 + t,
            forall|q: int|
                0 <= q < n0 ==> #[trigger] entry_view(out@[q]) == (
                    advertised@[q].0@,
                    crate::auth::opt_view(advertised@[q].1),
                    effective(ov, advertised@[q].0@).0,
                    effective(ov, advertised@[q].0@).1,
                ),
            forall|q: int|
                n0 <= q < out@.len() ==> #[trigger] entry_view(out@[q]) == (
                    xv[q - n0].0,
                    None::<Seq<char>>,
                    effective(ov, xv[q - n0].0).0,
                    effective(ov, xv[q - n0].0).1,
                ),
        decreases extra@.len() - t,
    {
        assert(xv[t as int] == crate::headers::field_view(extra@[t as int]));
        let name = extra[t].0.clone();
        let (mode, has) = resolve_effective(overrides, name.as_str());
        out.push(ToolApprovalEntry { tool_name: name, description: None, effective_mode: mode, has_override: has });
        t = t + 1;
    }
    proof {
        assert forall|i: int, j2: int|
            n0 <= i < j2 < out@.len() implies lex_lt(
                (#[trigger] out@[i]).tool_name@,
                (#[trigger] out@[j2]).tool_name@,
            ) by {
            assert(entry_view(out@[i]).0 == xv[i - n0].0);
            assert(entry_view(out@[j2]).0 == xv[j2 - n0].0);
        }
        assert forall|k: Seq<char>|
            (exists|i: int| n0 <= i < out@.len() && #[trigger] out@[i].tool_name@ == k) <==> (
            override_key(ov, k) && !advertised_name(advertised@, k)) by {
            crate::storage::lemma_lookup_some(xv, k);
            if exists|i: int| n0 <= i < out@.len() && #[trigger] out@[i].tool_name@ == k {
                let i = choose|i: int| n0 <= i < out@.len() && #[trigger] out@[i].tool_name@ == k;
                assert(entry_view(out@[i]).0 == xv[i - n0].0);
                assert(xv[i - n0].0 == k);
            }
            if override_key(ov, k) && !advertised_name(advertised@, k) {
                let q = choose|q: int| 0 <= q < ov.len() && #[trigger] ov[q].0 == k;
                assert(field_lookup(xv, k) is Some);
                let p = choose|p: int| 0 <= p < xv.len() && xv[p].0 == k;
                assert(entry_view(out@[n0 + p]).0 == xv[p].0);
                assert(out@[n0 + p].tool_name@ == k);
            }
        }
    }
    out
}

} // verus!
