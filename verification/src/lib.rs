//! Verified core logic of the MCP (Model Context Protocol) client and server
//! management layer: OAuth challenge parsing, the connection circuit-breaker,
//! SSE framing, header templating and validation, transport configuration
//! rules, the elicitation registry, sampling-session limits, tool-call
//! recording rules and resource-link confinement.
#![allow(unused_imports)]

pub mod text;
pub mod error;
pub mod clock;
pub mod auth;
pub mod breaker;
pub mod sse;
pub mod stream;
pub mod headers;
pub mod models;
pub mod object;
pub mod validation;
pub mod stdio;
pub mod registry;
pub mod sessions;
pub mod tool_calls;
pub mod approvals;
pub mod sampling;
pub mod permissions;
pub mod listing;
pub mod events;
pub mod health;
pub mod runtime_types;
pub mod seed;
pub mod json;
pub mod json_codec;
pub mod resource_link;
pub mod record;
pub mod elicitation;
pub mod manager;
pub mod storage;
pub mod probe;
pub mod call_stream;
pub mod rpc;
pub mod codec;
pub mod settings;
pub mod groups;
