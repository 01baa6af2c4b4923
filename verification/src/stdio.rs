//! How a stdio server is launched: the command allowlist, the mapping of
//! launchers to the bundled runtimes, the blocked environment variables,
//! and whether the process goes into the sandbox.
use crate::error::{McpError, STATUS_BAD_REQUEST};
use crate::headers::{fields_view, StrFields};
use crate::models::{McpServer, StrItems, TransportType};
use crate::text;
use vstd::prelude::*;
use vstd::string::StringExecFns;

verus! {

/// The commands a stdio server may run.
pub open spec fn allowed_commands() -> Seq<Seq<char>> {
    seq!["npx"@, "uvx"@, "python"@, "python3"@, "node"@, "deno"@]
}

/// Environment variables never handed to a server process.
pub open spec fn blocked_env_vars() -> Seq<Seq<char>> {
    seq![
        "AWS_SECRET_ACCESS_KEY"@,
        "AWS_SECRET_KEY"@,
        "DATABASE_PASSWORD"@,
        "DB_PASSWORD"@,
        "PGPASSWORD"@,
        "MYSQL_PASSWORD"@,
        "REDIS_PASSWORD"@,
        "API_SECRET"@,
        "SECRET_KEY"@,
        "PRIVATE_KEY"@,
        "JWT_SECRET"@,
        "ENCRYPTION_KEY"@,
    ]
}

/// Whether `s` is one of the strings of `l`.
fn one_of(s: &str, l: &Vec<&str>) -> (r: bool)
    ensures
        r == l@.map_values(|x: &str| x@).contains(s@),
{
    let ghost lv = l@.map_values(|x: &str| x@);
    let mut i: usize = 0;
    while i < l.len()
        invariant
            i <= l@.len(),
            lv == l@.map_values(|x: &str| x@),
            forall|j: int| 0 <= j < i ==> lv[j] != s@,
        decreases l@.len() - i,
    {
        if text::str_eq(s, l[i]) {
            assert(lv[i as int] == s@);
            return true;
        }
        i = i + 1;
    }
    false
}

/// Whether `cmd` may be run.
pub fn is_allowed_command(cmd: &str) -> (r: bool)
    ensures
        r == allowed_commands().contains(cmd@),
{
    let l: Vec<&str> = vec!["npx", "uvx", "python", "python3", "node", "deno"];
    proof {
        reveal_strlit("npx");
        reveal_strlit("uvx");
        reveal_strlit("python");
        reveal_strlit("python3");
        reveal_strlit("node");
        reveal_strlit("deno");
    }
    assert(l@.map_values(|x: &str| x@) =~= allowed_commands());
    one_of(cmd, &l)
}

/// Whether `key` is a blocked environment variable.
pub fn is_blocked_env_var(key: &str) -> (r: bool)
    ensures
        r == blocked_env_vars().contains(key@),
{
    let l: Vec<&str> = vec![
        "AWS_SECRET_ACCESS_KEY",
        "AWS_SECRET_KEY",
        "DATABASE_PASSWORD",
        "DB_PASSWORD",
        "PGPASSWORD",
        "MYSQL_PASSWORD",
        "REDIS_PASSWORD",
        "API_SECRET",
        "SECRET_KEY",
        "PRIVATE_KEY",
        "JWT_SECRET",
        "ENCRYPTION_KEY",
    ];
    assert(l@.map_values(|x: &str| x@) =~= blocked_env_vars());
    one_of(key, &l)
}

/// The program and leading arguments a launcher runs as: `uvx` is `uv tool
/// run`, `npx` is `bun x`, `python`/`python3` are `uv run python[3]`,
/// `node` is `bun run`; any other command runs as itself.
pub open spec fn resolved_command(cmd: Seq<char>, uv: Seq<char>, bun: Seq<char>) -> (Seq<char>, Seq<
    Seq<char>,
>) {
    if cmd == "uvx"@ {
        (uv, seq!["tool"@, "run"@])
    } else if cmd == "npx"@ {
        (bun, seq!["x"@])
    } else if cmd == "python"@ || cmd == "python3"@ {
        (uv, seq!["run"@, cmd])
    } else if cmd == "node"@ {
        (bun, seq!["run"@])
    } else {
        (cmd, seq![])
    }
}

/// Whether resolving `cmd` needs the bundled `uv`, or the bundled `bun`.
pub open spec fn needs_uv(cmd: Seq<char>) -> bool {
    cmd == "uvx"@ || cmd == "python"@ || cmd == "python3"@
}

pub open spec fn needs_bun(cmd: Seq<char>) -> bool {
    cmd == "npx"@ || cmd == "node"@
}

/// The view of a list of strings.
pub open spec fn strings_view(v: Seq<String>) -> Seq<Seq<char>> {
    v.map_values(|s: String| s@)
}

/// Maps a launcher to the bundled runtime that runs it (`uv_path` and
/// `bun_path` are where the bundled binaries were found, or why they were
/// not); returns the program and the arguments to put before the server's
/// own.
pub fn resolve_command(
    cmd: &str,
    uv_path: Result<String, McpError>,
    bun_path: Result<String, McpError>,
) -> (r: Result<(String, Vec<String>), McpError>)
    ensures
        needs_uv(cmd@) ==> match uv_path {
            Ok(uv) => r matches Ok((p, a)) && (p@, strings_view(a@)) == resolved_command(
                cmd@,
                uv@,
                Seq::empty(),
            ),
            Err(e) => r == Err::<(String, Vec<String>), McpError>(e),
        },
        needs_bun(cmd@) ==> match bun_path {
            Ok(bun) => r matches Ok((p, a)) && (p@, strings_view(a@)) == resolved_command(
                cmd@,
                Seq::empty(),
                bun@,
            ),
            Err(e) => r == Err::<(String, Vec<String>), McpError>(e),
        },
        !needs_uv(cmd@) && !needs_bun(cmd@) ==> (r matches Ok((p, a)) && (p@, strings_view(a@))
            == resolved_command(cmd@, Seq::empty(), Seq::empty())),
{
    proof {
        reveal_strlit("uvx");
        reveal_strlit("npx");
        reveal_strlit("python");
        reveal_strlit("python3");
        reveal_strlit("node");
    }
    let is_uvx = text::str_eq(cmd, "uvx");
    let is_npx = text::str_eq(cmd, "npx");
    let is_py = text::str_eq(cmd, "python") || text::str_eq(cmd, "python3");
    let is_node = text::str_eq(cmd, "node");
    if is_uvx || is_py {
        assert(!needs_bun(cmd@)) by {
            assert("uvx"@.len() == 3 && "npx"@.len() == 3 && "node"@.len() == 4);
            assert("uvx"@[0] != "npx"@[0]);
            assert("python"@.len() == 6 && "python3"@.len() == 7);
        }
        let uv = match uv_path {
            Ok(p) => p,
            Err(e) => {
                return Err(e);
            },
        };
        let mut args: Vec<String> = Vec::new();
        if is_uvx {
            args.push(String::from_str("tool"));
            args.push(String::from_str("run"));
        } else {
            args.push(String::from_str("run"));
            args.push(String::from_str(cmd));
        }
        assert(strings_view(args@) =~= resolved_command(cmd@, uv@, Seq::empty()).1);
        Ok((uv, args))
    } else if is_npx || is_node {
        let bun = match bun_path {
            Ok(p) => p,
            Err(e) => {
                return Err(e);
            },
        };
        let mut args: Vec<String> = Vec::new();
        if is_npx {
            args.push(String::from_str("x"));
        } else {
            args.push(String::from_str("run"));
        }
        assert(strings_view(args@) =~= resolved_command(cmd@, Seq::empty(), bun@).1);
        Ok((bun, args))
    } else {
        let args: Vec<String> = Vec::new();
        assert(strings_view(args@) =~= Seq::<Seq<char>>::empty());
        Ok((String::from_str(cmd), args))
    }
}

/// The environment a server process gets: the string-valued variables of
/// its configuration, in order, without the blocked ones.
pub open spec fn env_filter(f: Seq<(Seq<char>, Option<Seq<char>>)>) -> Seq<(Seq<char>, Seq<char>)>
    decreases f.len(),
{
    if f.len() == 0 {
        Seq::empty()
    } else {
        let prev = env_filter(f.drop_last());
        let (k, v) = f.last();
        if !blocked_env_vars().contains(k) && v is Some {
            prev.push((k, v->0))
        } else {
            prev
        }
    }
}

/// The view of `(name, value)` pairs.
pub open spec fn pairs_view(v: Seq<(String, String)>) -> Seq<(Seq<char>, Seq<char>)> {
    v.map_values(|p: (String, String)| (p.0@, p.1@))
}

/// The variables handed to a server process (`env` when it is an object):
/// blocked names and non-string values are dropped.
pub fn filter_env(env: Option<&StrFields>) -> (r: Vec<(String, String)>)
    ensures
        pairs_view(r@) == match env {
            Some(f) => env_filter(fields_view(f@)),
            None => Seq::empty(),
        },
{
    let mut out: Vec<(String, String)> = Vec::new();
    let f = match env {
        None => {
            return out;
        },
        Some(f) => f,
    };
    let ghost fv = fields_view(f@);
    let mut j: usize = 0;
    while j < f.len()
        invariant
            j <= f@.len(),
            fv == fields_view(f@),
            pairs_view(out@) == env_filter(fv.take(j as int)),
        decreases f@.len() - j,
    {
        assert(fv.take(j + 1).drop_last() =~= fv.take(j as int));
        assert(fv.take(j + 1).last() == crate::headers::field_view(f@[j as int]));
        let blocked = is_blocked_env_var(f[j].0.as_str());
        if !blocked {
            if let Some(v) = &f[j].1 {
                out.push((f[j].0.clone(), v.clone()));
            }
        }
        assert(pairs_view(out@) =~= env_filter(fv.take(j + 1)));
        j = j + 1;
    }
    assert(fv.take(j as int) =~= fv);
    out
}

/// The string items of a JSON array, in order (others are skipped).
pub open spec fn string_items(a: Seq<Option<String>>) -> Seq<Seq<char>>
    decreases a.len(),
{
    if a.len() == 0 {
        Seq::empty()
    } else {
        let prev = string_items(a.drop_last());
        match a.last() {
            Some(s) => prev.push(s@),
            None => prev,
        }
    }
}

/// Appends the string items of `items` to `out`.
fn push_string_items(out: &mut Vec<String>, items: &Option<StrItems>)
    ensures
        strings_view(final(out)@) == strings_view(old(out)@) + match items {
            Some(a) => string_items(a@),
            None => Seq::empty(),
        },
{
    let ghost start = strings_view(out@);
    match items {
        None => {
            assert(strings_view(out@) =~= start + Seq::<Seq<char>>::empty());
        },
        Some(a) => {
            let mut j: usize = 0;
            while j < a.len()
                invariant
                    j <= a@.len(),
                    strings_view(out@) == start + string_items(a@.take(j as int)),
                decreases a@.len() - j,
            {
                assert(a@.take(j + 1).drop_last() =~= a@.take(j as int));
                assert(a@.take(j + 1).last() == a@[j as int]);
                let ghost before = strings_view(out@);
                if let Some(s) = &a[j] {
                    out.push(s.clone());
                    assert(strings_view(out@) =~= before.push(s@));
                } else {
                    assert(strings_view(out@) =~= before);
                }
                assert(strings_view(out@) =~= start + string_items(a@.take(j + 1)));
                j = j + 1;
            }
            assert(a@.take(j as int) =~= a@);
        },
    }
}

/// How to start a server process on the host.
#[derive(Debug, Clone, PartialEq, Eq)]
pub struct LaunchPlan {
    pub program: String,
    pub args: Vec<String>,
    pub env: Vec<(String, String)>,
}

/// The message refusing a command that is not on the allowlist.
pub open spec fn invalid_command_message(c: Seq<char>) -> Seq<char> {
    "Command '"@ + c
        + "' is not allowed. Allowed commands: [\"npx\", \"uvx\", \"python\", \"python3\", \"node\", \"deno\"]"@
}

/// The host launch of a stdio server: its command must be on the
/// allowlist; it is resolved to the bundled runtime, followed by the
/// string items of `args`; the environment is the filtered variables.
pub fn create_command(
    server: &McpServer,
    uv_path: Result<String, McpError>,
    bun_path: Result<String, McpError>,
) -> (r: Result<LaunchPlan, McpError>)
    ensures
        server.command is None ==> (r matches Err(e) && e.status == STATUS_BAD_REQUEST && e.code@
            == "MISSING_COMMAND"@ && e.message@ == "Missing command"@),
        server.command is Some && !allowed_commands().contains(server.command->0@) ==> (r matches Err(e)
            && e.status == STATUS_BAD_REQUEST && e.code@ == "INVALID_COMMAND"@ && e.message@
            == invalid_command_message(server.command->0@)),
        server.command is Some && allowed_commands().contains(server.command->0@) ==> {
            let c = server.command->0;
            let uv_ok = uv_path is Ok;
            let bun_ok = bun_path is Ok;
            let (prog, pre) = resolved_command(
                c@,
                if uv_ok {
                    uv_path->Ok_0@
                } else {
                    Seq::empty()
                },
                if bun_ok {
                    bun_path->Ok_0@
                } else {
                    Seq::empty()
                },
            );
            if needs_uv(c@) && !uv_ok {
                r == Err::<LaunchPlan, McpError>(uv_path->Err_0)
            } else if needs_bun(c@) && !bun_ok {
                r == Err::<LaunchPlan, McpError>(bun_path->Err_0)
            } else {
                (r matches Ok(p) && p.program@ == prog && strings_view(p.args@) == pre + match server.args {
                    Some(a) => string_items(a@),
                    None => Seq::empty(),
                } && pairs_view(p.env@) == match server.environment_variables {
                    Some(f) => env_filter(fields_view(f@)),
                    None => Seq::empty(),
                })
            }
        },
{
    let cmd = match &server.command {
        None => {
            return Err(McpError::bad_request("MISSING_COMMAND", String::from_str("Missing command")));
        },
        Some(c) => c,
    };
    if !is_allowed_command(cmd.as_str()) {
        return Err(
            McpError::bad_request(
                "INVALID_COMMAND",
                text::concat3(
                    "Command '",
                    cmd.as_str(),
                    "' is not allowed. Allowed commands: [\"npx\", \"uvx\", \"python\", \"python3\", \"node\", \"deno\"]",
                ),
            ),
        );
    }
    let (program, mut args) = resolve_command(cmd.as_str(), uv_path, bun_path)?;
    push_string_items(&mut args, &server.args);
    let env = filter_env(
        match &server.environment_variables {
            Some(f) => Some(f),
            None => None,
        },
    );
    Ok(LaunchPlan { program, args, env })
}

/// Whether a server's process runs in the sandbox: a system stdio server
/// with `run_in_sandbox` on, while the sandbox is up.
pub fn should_sandbox(server: &McpServer, sandbox_ready: bool) -> (r: bool)
    ensures
        r == (server.is_system && server.transport_type == TransportType::Stdio
            && server.run_in_sandbox && sandbox_ready),
{
    server.is_system && server.transport_type == TransportType::Stdio && server.run_in_sandbox
        && sandbox_ready
}

/// A stdio client only serves stdio servers.
pub fn check_stdio_transport(t: TransportType) -> (r: Result<(), McpError>)
    ensures
        r is Ok <==> t == TransportType::Stdio,
        r matches Err(e) ==> e.status == STATUS_BAD_REQUEST && e.code@ == "INVALID_TRANSPORT"@
            && e.message@ == "Only stdio transport supported"@,
{
    if t != TransportType::Stdio {
        return Err(
            McpError::bad_request(
                "INVALID_TRANSPORT",
                String::from_str("Only stdio transport supported"),
            ),
        );
    }
    Ok(())
}

} // verus!
