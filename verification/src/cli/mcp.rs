//! `local-code mcp ...`: what listing and removing MCP servers show and
//! change. The servers are read raw, so a `${VAR}` reference is shown and
//! saved as written, never resolved.
use vstd::prelude::*;

use crate::cli::Removal;
use crate::config::layering::{has_key, remove_key, without_key, without_key_law};
use crate::config::mcp_servers::{McpServerConfig, McpTransportConfig, TransportView};
use crate::text::{append, chars_of, join, join_strings, string_from, strings_view};

verus! {

/// The one-line summary of a transport.
pub open spec fn transport_summary(t: TransportView) -> Seq<char> {
    match t {
        TransportView::Stdio { command, args } => "stdio: "@ + command + " "@ + join(args, " "@),
        TransportView::Http { url, .. } => "http: "@ + url,
        TransportView::Sse { url, .. } => "sse: "@ + url,
        TransportView::Websocket { url } => "websocket: "@ + url,
    }
}

/// The listing line of each server, in order.
pub open spec fn server_lines(servers: Seq<McpServerConfig>) -> Seq<char>
    decreases servers.len(),
{
    if servers.len() == 0 {
        Seq::empty()
    } else {
        server_lines(servers.drop_last()) + servers.last().name@ + "  ["@ + transport_summary(
            servers.last().transport@,
        ) + "]\n"@
    }
}

/// What `mcp list` prints for `servers`.
pub open spec fn mcp_listing(servers: Seq<McpServerConfig>) -> Seq<char> {
    if servers.len() == 0 {
        "No MCP servers configured. Run `/mcp add` inside the TUI.\n"@
    } else {
        server_lines(servers)
    }
}

fn summary_exec(t: &McpTransportConfig) -> (r: Vec<char>)
    ensures
        r@ == transport_summary(t@),
{
    match t {
        McpTransportConfig::Stdio { command, args } => {
            let mut m = chars_of("stdio: ");
            append(&mut m, chars_of(command.as_str()).as_slice());
            append(&mut m, chars_of(" ").as_slice());
            let joined = join_strings(args, " ");
            append(&mut m, chars_of(joined.as_str()).as_slice());
            m
        },
        McpTransportConfig::Http { url, .. } => {
            let mut m = chars_of("http: ");
            append(&mut m, chars_of(url.as_str()).as_slice());
            m
        },
        McpTransportConfig::Sse { url, .. } => {
            let mut m = chars_of("sse: ");
            append(&mut m, chars_of(url.as_str()).as_slice());
            m
        },
        McpTransportConfig::Websocket { url } => {
            let mut m = chars_of("websocket: ");
            append(&mut m, chars_of(url.as_str()).as_slice());
            m
        },
    }
}

/// What `mcp list` prints: each server with a summary of its transport.
pub fn list(servers: &[McpServerConfig]) -> (r: String)
    ensures
        r@ == mcp_listing(servers@),
{
    if servers.len() == 0 {
        return "No MCP servers configured. Run `/mcp add` inside the TUI.\n".to_owned();
    }
    let mut out: Vec<char> = Vec::new();
    let mut i: usize = 0;
    while i < servers.len()
        invariant
            i <= servers@.len(),
            out@ == server_lines(servers@.take(i as int)),
        decreases servers@.len() - i,
    {
        assert(servers@.take(i + 1).drop_last() =~= servers@.take(i as int));
        let s = &servers[i];
        append(&mut out, chars_of(s.name.as_str()).as_slice());
        append(&mut out, chars_of("  [").as_slice());
        append(&mut out, summary_exec(&s.transport).as_slice());
        append(&mut out, chars_of("]\n").as_slice());
        i = i + 1;
    }
    assert(servers@.take(servers@.len() as int) =~= servers@);
    string_from(out.as_slice())
}

/// `mcp remove <name>`: the servers without those named `name`, whether any
/// was removed, and the message for the user.
pub fn remove(servers: Vec<McpServerConfig>, name: &str) -> (r: Removal<McpServerConfig>)
    ensures
        r.remaining@ == without_key(servers@, name@),
        r.removed <==> has_key(servers@, name@),
        r.removed ==> r.message@ == "Removed MCP server '"@ + name@ + "'.\n"@,
        !r.removed ==> r.message@ == "No MCP server named '"@ + name@ + "' found.\n"@,
{
    let before = servers.len();
    let ghost orig = servers@;
    let remaining = remove_key(servers, chars_of(name).as_slice());
    proof {
        without_key_law(orig, name@);
    }
    let removed = remaining.len() != before;
    let mut m = if removed {
        chars_of("Removed MCP server '")
    } else {
        chars_of("No MCP server named '")
    };
    append(&mut m, chars_of(name).as_slice());
    if removed {
        append(&mut m, chars_of("'.\n").as_slice());
    } else {
        append(&mut m, chars_of("' found.\n").as_slice());
    }
    Removal { remaining, removed, message: string_from(m.as_slice()) }
}

/// What `mcp add` prints outside the TUI.
pub fn add_unsupported() -> (r: String)
    ensures
        r@ == "adding an MCP server interactively isn't supported outside the TUI.\nRun `local-code` and use `/mcp add`.\n"@,
{
    "adding an MCP server interactively isn't supported outside the TUI.\nRun `local-code` and use `/mcp add`.\n".to_owned()
}

} // verus!
