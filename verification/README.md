# ziee_mcp

The decision logic of an MCP (Model Context Protocol) client and of the
server registry around it, written in Verus and proved against its contracts.

## Layout

- `src/` — the verified library. Each module states its model with spec
  functions and views, and each public function its result in `ensures`.
  - protocol: `rpc` (JSON-RPC requests and replies), `sse` and `call_stream`
    (event-stream framing, per-message decisions while a tool call streams),
    `stream` (protocol-version negotiation, request retries, the reconnect
    state machine of the standalone event stream),
    `auth` (OAuth challenges, token endpoints, token validity), `headers`
    (header templates and header maps), `codec` (base64).
  - servers: `models`, `validation`, `stdio`, `probe`, `storage` (how
    secrets and plain entries are split into columns and read back),
    `health`, `breaker` (the reconnect circuit-breaker), `manager`,
    `permissions`, `listing`, `groups`, `seed`, `settings`.
  - calls: `tool_calls`, `record` (what is kept of a tool call), `approvals`,
    `resource_link`, `elicitation` and `registry` (pending elicitations),
    `sampling` and `sessions` (sampling-session limits), `events`.
  - shared: `text`, `json`, `json_codec` (JSON text as `serde_json` writes
    and reads it), `object`, `error`, `clock`, `runtime_types`.
- `tests/` — tests run against the compiled library.
- `app/` — ordinary Rust around the library: the loops that read network
  streams and wait for a user's answer, handing each step to the library;
  process-wide state; the serde copies of library types; and the
  float-based reconnect delays.

Laws that relate several operations are public proof functions whose names
start with `law_`.
