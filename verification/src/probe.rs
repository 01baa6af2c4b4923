//! The throwaway server a connection test probes: the candidate
//! configuration of a test request, with its environment and header
//! entries resolved to plain values.
use crate::headers::{field_lookup, fields_view, lookup_range, HeaderEntry, StrFields};
use crate::models::{default_health_status, McpServer, TransportType, UsageMode};
use crate::object::{keys_sorted, object_insert};
use crate::text;
use crate::validation::{EnvVarEntry, TestMcpConnectionRequest};
use vstd::prelude::*;

verus! {

/// An entry as `(key, value, is_secret)`.
pub type EntryV = (Seq<char>, Option<Seq<char>>, bool);

/// The view of environment entries.
pub open spec fn env_entries_view(e: Seq<EnvVarEntry>) -> Seq<EntryV> {
    e.map_values(|x: EnvVarEntry| (x.key@, opt_str(x.value), x.is_secret))
}

/// The view of header entries.
pub open spec fn header_entries_view(e: Seq<HeaderEntry>) -> Seq<EntryV> {
    e.map_values(|x: HeaderEntry| (x.key@, opt_str(x.value), x.is_secret))
}

/// The view of an optional string.
pub open spec fn opt_str(o: Option<String>) -> Option<Seq<char>> {
    match o {
        Some(s) => Some(s@),
        None => None,
    }
}

/// The value an entry is probed with: its own value when it has one; for a
/// secret without one, the saved server's string value under that key (or
/// empty); otherwise empty.
pub open spec fn entry_value(
    e: EntryV,
    existing: Option<Seq<(Seq<char>, Option<Seq<char>>)>>,
) -> Seq<char> {
    match e.1 {
        Some(v) => v,
        None => if e.2 {
            match existing {
                Some(f) => match field_lookup(f, e.0) {
                    Some(Some(v)) => v,
                    _ => Seq::empty(),
                },
                None => Seq::empty(),
            }
        } else {
            Seq::empty()
        },
    }
}

/// The probed value under key `k`: that of the last entry named `k`.
pub open spec fn resolved(
    entries: Seq<EntryV>,
    existing: Option<Seq<(Seq<char>, Option<Seq<char>>)>>,
    k: Seq<char>,
) -> Option<Option<Seq<char>>>
    decreases entries.len(),
{
    if entries.len() == 0 {
        None
    } else if entries.last().0 == k {
        Some(Some(entry_value(entries.last(), existing)))
    } else {
        resolved(entries.drop_last(), existing, k)
    }
}

/// The view of optional saved members.
pub open spec fn opt_fields(o: Option<&StrFields>) -> Option<Seq<(Seq<char>, Option<Seq<char>>)>> {
    match o {
        Some(f) => Some(fields_view(f@)),
        None => None,
    }
}

/// The view of a saved server's optional members.
pub open spec fn saved_fields(o: Option<StrFields>) -> Option<Seq<(Seq<char>, Option<Seq<char>>)>> {
    match o {
        Some(f) => Some(fields_view(f@)),
        None => None,
    }
}

/// The value one entry is probed with (see [`entry_value`]).
fn value_of(key: &String, value: &Option<String>, is_secret: bool, existing: Option<&StrFields>) -> (r:
    String)
    ensures
        r@ == entry_value((key@, opt_str(*value), is_secret), opt_fields(existing)),
{
    match value {
        Some(v) => v.clone(),
        None => {
            if is_secret {
                match existing {
                    Some(f) => {
                        let kc = text::chars_of(key.as_str());
                        proof {
                            assert(kc@.subrange(0, kc@.len() as int) =~= key@);
                        }
                        match lookup_range(f, &kc, 0, kc.len()) {
                            Some(Some(v)) => v,
                            _ => String::new(),
                        }
                    },
                    None => String::new(),
                }
            } else {
                String::new()
            }
        },
    }
}

/// The environment of the probed server, as an object: each entry's key
/// with its probed value, the last entry winning for a repeated key.
pub fn resolve_entries_for_probe(entries: Option<&Vec<EnvVarEntry>>, existing: Option<&StrFields>) -> (r:
    StrFields)
    ensures
        keys_sorted(fields_view(r@)),
        forall|k: Seq<char>|
            #[trigger] field_lookup(fields_view(r@), k) == match entries {
                Some(e) => resolved(env_entries_view(e@), opt_fields(existing), k),
                None => None,
            },
{
    let mut out: StrFields = Vec::new();
    let e = match entries {
        None => {
            return out;
        },
        Some(e) => e,
    };
    let ghost ev = env_entries_view(e@);
    let mut i: usize = 0;
    while i < e.len()
        invariant
            i <= e@.len(),
            ev == env_entries_view(e@),
            keys_sorted(fields_view(out@)),
            forall|k: Seq<char>|
                #[trigger] field_lookup(fields_view(out@), k) == resolved(
                    ev.take(i as int),
                    opt_fields(existing),
                    k,
                ),
        decreases e@.len() - i,
    {
        let v = value_of(&e[i].key, &e[i].value, e[i].is_secret, existing);
        object_insert(&mut out, e[i].key.clone(), Some(v));
        assert(ev.take(i + 1).drop_last() =~= ev.take(i as int));
        i = i + 1;
    }
    assert(ev.take(i as int) =~= ev);
    out
}

/// The headers of the probed server (see [`resolve_entries_for_probe`]).
pub fn resolve_header_entries_for_probe(
    entries: Option<&Vec<HeaderEntry>>,
    existing: Option<&StrFields>,
) -> (r: StrFields)
    ensures
        keys_sorted(fields_view(r@)),
        forall|k: Seq<char>|
            #[trigger] field_lookup(fields_view(r@), k) == match entries {
                Some(e) => resolved(header_entries_view(e@), opt_fields(existing), k),
                None => None,
            },
{
    let mut out: StrFields = Vec::new();
    let e = match entries {
        None => {
            return out;
        },
        Some(e) => e,
    };
    let ghost ev = header_entries_view(e@);
    let mut i: usize = 0;
    while i < e.len()
        invariant
            i <= e@.len(),
            ev == header_entries_view(e@),
            keys_sorted(fields_view(out@)),
            forall|k: Seq<char>|
                #[trigger] field_lookup(fields_view(out@), k) == resolved(
                    ev.take(i as int),
                    opt_fields(existing),
                    k,
                ),
        decreases e@.len() - i,
    {
        let v = value_of(&e[i].key, &e[i].value, e[i].is_secret, existing);
        object_insert(&mut out, e[i].key.clone(), Some(v));
        assert(ev.take(i + 1).drop_last() =~= ev.take(i as int));
        i = i + 1;
    }
    assert(ev.take(i as int) =~= ev);
    out
}

/// The probed arguments: the request's strings (none when it has none).
fn args_items(args: &Option<Vec<String>>) -> (r: Vec<Option<String>>)
    ensures
        r@.len() == match args {
            Some(a) => a@.len(),
            None => 0,
        },
        forall|i: int|
            0 <= i < r@.len() ==> #[trigger] opt_str(r@[i]) == Some(args->0@[i]@),
{
    let mut out: Vec<Option<String>> = Vec::new();
    match args {
        None => {},
        Some(a) => {
            let mut i: usize = 0;
            while i < a.len()
                invariant
                    i <= a@.len(),
                    out@.len() == i,
                    forall|j: int| 0 <= j < i ==> #[trigger] opt_str(out@[j]) == Some(a@[j]@),
                decreases a@.len() - i,
            {
                out.push(Some(a[i].clone()));
                i = i + 1;
            }
        },
    }
    out
}

/// The throwaway server a connection test probes: nil id, named
/// `connection-test`, enabled, not built in, never sandboxed, with the
/// request's transport, command, URL and timeout (30 s when absent), its
/// arguments (an empty array when absent), and its environment and header
/// entries resolved against the saved server `existing` (empty objects
/// when absent). `now_ms` stamps creation and update.
pub fn build_ephemeral_server(
    req: &TestMcpConnectionRequest,
    user_id: Option<u128>,
    is_system: bool,
    existing: Option<&McpServer>,
    now_ms: i64,
) -> (r: McpServer)
    ensures
        r.id == 0,
        r.user_id == user_id,
        r.name@ == "connection-test"@,
        r.display_name@ == "Connection Test"@,
        r.description is None,
        r.enabled,
        r.is_system == is_system,
        !r.is_built_in,
        r.transport_type == req.transport_type,
        opt_str(r.command) == opt_str(req.command),
        opt_str(r.url) == opt_str(req.url),
        r.args matches Some(a) && a@.len() == (match req.args {
            Some(x) => x@.len(),
            None => 0,
        }) && (forall|i: int| 0 <= i < a@.len() ==> #[trigger] opt_str(a@[i]) == Some(req.args->0@[i]@)),
        r.environment_variables matches Some(env) && keys_sorted(fields_view(env@)) && forall|
            k: Seq<char>,
        |
            #[trigger] field_lookup(fields_view(env@), k) == match req.environment_variables_entries {
                Some(e) => resolved(
                    env_entries_view(e@),
                    match existing {
                        Some(s) => saved_fields(s.environment_variables),
                        None => None,
                    },
                    k,
                ),
                None => None,
            },
        r.headers matches Some(h) && keys_sorted(fields_view(h@)) && forall|k: Seq<char>|
            #[trigger] field_lookup(fields_view(h@), k) == match req.headers_entries {
                Some(e) => resolved(
                    header_entries_view(e@),
                    match existing {
                        Some(s) => saved_fields(s.headers),
                        None => None,
                    },
                    k,
                ),
                None => None,
            },
        r.environment_variables_entries@.len() == 0,
        r.headers_entries@.len() == 0,
        r.timeout_seconds == match req.timeout_seconds {
            Some(t) => t,
            None => 30,
        },
        !r.supports_sampling,
        r.usage_mode == UsageMode::Auto,
        r.max_concurrent_sessions is None,
        !r.run_in_sandbox,
        r.sandbox_flavor@ == "full"@,
        r.last_health_check_at is None,
        r.last_health_check_status@ == "untested"@,
        r.last_health_check_reason is None,
        r.created_at == now_ms,
        r.updated_at == now_ms,
{
    let existing_env: Option<&StrFields> = match existing {
        Some(s) => s.environment_variables.as_ref(),
        None => None,
    };
    let existing_headers: Option<&StrFields> = match existing {
        Some(s) => s.headers.as_ref(),
        None => None,
    };
    assert(opt_fields(existing_env) == match existing {
        Some(s) => saved_fields(s.environment_variables),
        None => None,
    });
    assert(opt_fields(existing_headers) == match existing {
        Some(s) => saved_fields(s.headers),
        None => None,
    });
    let env = resolve_entries_for_probe(req.environment_variables_entries.as_ref(), existing_env);
    let headers = resolve_header_entries_for_probe(req.headers_entries.as_ref(), existing_headers);
    let command = match &req.command {
        Some(c) => Some(c.clone()),
        None => None,
    };
    let url = match &req.url {
        Some(u) => Some(u.clone()),
        None => None,
    };
    let timeout_seconds: i32 = match req.timeout_seconds {
        Some(t) => t,
        None => 30,
    };
    McpServer {
        id: 0,
        user_id,
        name: String::from_str("connection-test"),
        display_name: String::from_str("Connection Test"),
        description: None,
        enabled: true,
        is_system,
        is_built_in: false,
        transport_type: req.transport_type,
        command,
        args: Some(args_items(&req.args)),
        environment_variables: Some(env),
        url,
        headers: Some(headers),
        environment_variables_entries: Vec::new(),
        headers_entries: Vec::new(),
        timeout_seconds,
        supports_sampling: false,
        usage_mode: UsageMode::Auto,
        max_concurrent_sessions: None,
        run_in_sandbox: false,
        sandbox_flavor: String::from_str("full"),
        last_health_check_at: None,
        last_health_check_status: default_health_status(),
        last_health_check_reason: None,
        created_at: now_ms,
        updated_at: now_ms,
    }
}

} // verus!
