//! MCP servers' tools as the agent sees them: each under its server's
//! namespace, and what a failed connection reports.
use vstd::prelude::*;

pub mod framing;

use crate::text::{append, chars_of, decimal, decimal_u64_chars, string_from};

verus! {

/// How long one server may take to start, shake hands and list its tools.
pub const CONNECT_TIMEOUT_SECONDS: u64 = 15;

/// The name a server's tool is registered under, `<server>__<tool>`, so two
/// servers (or a built-in) offering the same bare name never collide.
pub fn namespaced_name(server_name: &str, tool_name: &str) -> (r: String)
    ensures
        r@ == server_name@ + "__"@ + tool_name@,
{
    let mut m = chars_of(server_name);
    append(&mut m, chars_of("__").as_slice());
    append(&mut m, chars_of(tool_name).as_slice());
    string_from(m.as_slice())
}

/// Why a server's tools are missing: the failure is reported and the server
/// skipped, never fatal.
#[derive(Debug, Clone, PartialEq, Eq)]
pub enum McpConnectFailure {
    /// The transport, the handshake or the tool listing failed, with the
    /// error's text.
    Connect { server: String, reason: String },
    /// The attempt took longer than the time allowed.
    Timeout { server: String, seconds: u64 },
}

impl McpConnectFailure {
    /// The report of the failure.
    pub fn message(&self) -> (r: String)
        ensures
            self matches McpConnectFailure::Connect { server, reason } ==> r@ == "mcp server '"@
                + server@ + "' failed to connect: "@ + reason@,
            self matches McpConnectFailure::Timeout { server, seconds } ==> r@ == "mcp server '"@
                + server@ + "' did not finish connecting within "@ + decimal(seconds as nat)
                + "s; skipping it"@,
    {
        match self {
            McpConnectFailure::Connect { server, reason } => {
                let mut m = chars_of("mcp server '");
                append(&mut m, chars_of(server.as_str()).as_slice());
                append(&mut m, chars_of("' failed to connect: ").as_slice());
                append(&mut m, chars_of(reason.as_str()).as_slice());
                string_from(m.as_slice())
            },
            McpConnectFailure::Timeout { server, seconds } => {
                let mut m = chars_of("mcp server '");
                append(&mut m, chars_of(server.as_str()).as_slice());
                append(&mut m, chars_of("' did not finish connecting within ").as_slice());
                append(&mut m, decimal_u64_chars(*seconds).as_slice());
                append(&mut m, chars_of("s; skipping it").as_slice());
                string_from(m.as_slice())
            },
        }
    }
}

} // verus!
