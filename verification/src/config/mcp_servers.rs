//! MCP server configuration: the entries of `mcp.toml`, how the user-level
//! and project-level files combine, and how secret references in their
//! strings are resolved before a server is contacted.
use vstd::prelude::*;

use crate::config::interpolate::{interpolate_from, interpolate_refs, table_view};
use crate::config::layering::{layer, layered, Named};
use crate::text::{chars_of, join_path, join_path_chars, string_from, strings_view};

verus! {

/// How to reach an MCP server.
#[derive(Debug, Clone, PartialEq, Eq)]
pub enum McpTransportConfig {
    /// Spawns `command args...` and speaks JSON-RPC over its stdin/stdout.
    Stdio { command: String, args: Vec<String> },
    /// JSON-RPC over HTTP POSTs to `url`, with `headers` on every request.
    Http { url: String, headers: Vec<(String, String)> },
    /// The HTTP+SSE transport: a persistent GET for responses, POSTs for
    /// requests, `headers` on both.
    Sse { url: String, headers: Vec<(String, String)> },
    /// JSON-RPC as text frames over a WebSocket at `url`.
    Websocket { url: String },
}

/// The mathematical form of a transport; headers are name/value pairs.
pub enum TransportView {
    Stdio { command: Seq<char>, args: Seq<Seq<char>> },
    Http { url: Seq<char>, headers: Seq<(Seq<char>, Seq<char>)> },
    Sse { url: Seq<char>, headers: Seq<(Seq<char>, Seq<char>)> },
    Websocket { url: Seq<char> },
}

impl View for McpTransportConfig {
    type V = TransportView;

    open spec fn view(&self) -> TransportView {
        match self {
            McpTransportConfig::Stdio { command, args } => TransportView::Stdio {
                command: command@,
                args: strings_view(args@),
            },
            McpTransportConfig::Http { url, headers } => TransportView::Http {
                url: url@,
                headers: table_view(headers@),
            },
            McpTransportConfig::Sse { url, headers } => TransportView::Sse {
                url: url@,
                headers: table_view(headers@),
            },
            McpTransportConfig::Websocket { url } => TransportView::Websocket { url: url@ },
        }
    }
}

/// One named MCP server.
#[derive(Debug, Clone, PartialEq, Eq)]
pub struct McpServerConfig {
    pub name: String,
    pub transport: McpTransportConfig,
}

impl Named for McpServerConfig {
    open spec fn key(&self) -> Seq<char> {
        self.name@
    }

    fn key_chars(&self) -> (r: Vec<char>) {
        chars_of(self.name.as_str())
    }
}

/// The contents of one `mcp.toml`.
#[derive(Debug)]
pub struct McpServersFile {
    pub servers: Vec<McpServerConfig>,
}

/// `s` resolved against the environment table `e` and the secrets table `k`.
pub open spec fn resolved(
    s: Seq<char>,
    e: Seq<(Seq<char>, Seq<char>)>,
    k: Seq<(Seq<char>, Seq<char>)>,
) -> Seq<char> {
    interpolate_from(s, 0, e, k)
}

/// Whether some pair of `h` has the name `n`.
pub open spec fn has_header(h: Seq<(Seq<char>, Seq<char>)>, n: Seq<char>) -> bool {
    exists|j: int| 0 <= j < h.len() && (#[trigger] h[j]).0 == n
}

/// `h` without the pairs whose name an earlier pair already has.
pub open spec fn first_of_each_name(h: Seq<(Seq<char>, Seq<char>)>) -> Seq<(Seq<char>, Seq<char>)>
    decreases h.len(),
{
    if h.len() == 0 {
        h
    } else {
        let d = first_of_each_name(h.drop_last());
        if has_header(d, h.last().0) {
            d
        } else {
            d.push(h.last())
        }
    }
}

/// Every name and value of `h` resolved, keeping one pair per resulting
/// name (the headers form a map).
pub open spec fn resolved_headers(
    h: Seq<(Seq<char>, Seq<char>)>,
    e: Seq<(Seq<char>, Seq<char>)>,
    k: Seq<(Seq<char>, Seq<char>)>,
) -> Seq<(Seq<char>, Seq<char>)> {
    first_of_each_name(
        h.map_values(|p: (Seq<char>, Seq<char>)| (resolved(p.0, e, k), resolved(p.1, e, k))),
    )
}

/// `t` with every string resolved: command, each argument, URL, and each
/// header name and value.
pub open spec fn resolved_transport(
    t: TransportView,
    e: Seq<(Seq<char>, Seq<char>)>,
    k: Seq<(Seq<char>, Seq<char>)>,
) -> TransportView {
    match t {
        TransportView::Stdio { command, args } => TransportView::Stdio {
            command: resolved(command, e, k),
            args: args.map_values(|a: Seq<char>| resolved(a, e, k)),
        },
        TransportView::Http { url, headers } => TransportView::Http {
            url: resolved(url, e, k),
            headers: resolved_headers(headers, e, k),
        },
        TransportView::Sse { url, headers } => TransportView::Sse {
            url: resolved(url, e, k),
            headers: resolved_headers(headers, e, k),
        },
        TransportView::Websocket { url } => TransportView::Websocket { url: resolved(url, e, k) },
    }
}

fn resolve_args(
    args: &Vec<String>,
    env: &Vec<(String, String)>,
    secrets: &Vec<(String, String)>,
) -> (r: Vec<String>)
    ensures
        strings_view(r@) == strings_view(args@).map_values(
            |a: Seq<char>| resolved(a, table_view(env@), table_view(secrets@)),
        ),
{
    let ghost e = table_view(env@);
    let ghost k = table_view(secrets@);
    let mut r: Vec<String> = Vec::new();
    let mut i: usize = 0;
    while i < args.len()
        invariant
            i <= args@.len(),
            r@.len() == i,
            e == table_view(env@),
            k == table_view(secrets@),
            forall|j: int| 0 <= j < i ==> #[trigger] r@[j]@ == resolved(args@[j]@, e, k),
        decreases args@.len() - i,
    {
        r.push(interpolate_refs(args[i].as_str(), env, secrets));
        i = i + 1;
    }
    assert(strings_view(r@) =~= strings_view(args@).map_values(
        |a: Seq<char>| resolved(a, e, k),
    ));
    r
}

fn header_index(h: &Vec<(String, String)>, name: &[char]) -> (r: bool)
    ensures
        r == has_header(table_view(h@), name@),
{
    let mut i: usize = 0;
    while i < h.len()
        invariant
            i <= h@.len(),
            forall|j: int| 0 <= j < i ==> (#[trigger] table_view(h@)[j]).0 != name@,
        decreases h@.len() - i,
    {
        let key = chars_of(h[i].0.as_str());
        if crate::text::same(key.as_slice(), name) {
            assert(table_view(h@)[i as int].0 == name@);
            return true;
        }
        i = i + 1;
    }
    false
}

fn resolve_headers(
    headers: &Vec<(String, String)>,
    env: &Vec<(String, String)>,
    secrets: &Vec<(String, String)>,
) -> (r: Vec<(String, String)>)
    ensures
        table_view(r@) == resolved_headers(
            table_view(headers@),
            table_view(env@),
            table_view(secrets@),
        ),
{
    let ghost e = table_view(env@);
    let ghost k = table_view(secrets@);
    let ghost mapped = table_view(headers@).map_values(
        |p: (Seq<char>, Seq<char>)| (resolved(p.0, e, k), resolved(p.1, e, k)),
    );
    let mut r: Vec<(String, String)> = Vec::new();
    let mut i: usize = 0;
    while i < headers.len()
        invariant
            i <= headers@.len(),
            e == table_view(env@),
            k == table_view(secrets@),
            mapped == table_view(headers@).map_values(
                |p: (Seq<char>, Seq<char>)| (resolved(p.0, e, k), resolved(p.1, e, k)),
            ),
            table_view(r@) == first_of_each_name(mapped.take(i as int)),
        decreases headers@.len() - i,
    {
        let name = interpolate_refs(headers[i].0.as_str(), env, secrets);
        let value = interpolate_refs(headers[i].1.as_str(), env, secrets);
        let name_chars = chars_of(name.as_str());
        assert(mapped.take(i + 1).drop_last() =~= mapped.take(i as int));
        assert(mapped.take(i + 1).last() == (name@, value@));
        if !header_index(&r, name_chars.as_slice()) {
            let ghost before = r@;
            r.push((name, value));
            assert(table_view(r@) =~= table_view(before).push((name@, value@)));
        }
        i = i + 1;
    }
    assert(mapped.take(headers@.len() as int) =~= mapped);
    r
}

/// Resolves the secret references of every string of a transport: the
/// command and each argument, the URL, each header name and value.
pub fn interpolate_transport(
    transport: McpTransportConfig,
    env: &Vec<(String, String)>,
    secrets: &Vec<(String, String)>,
) -> (r: McpTransportConfig)
    ensures
        r@ == resolved_transport(transport@, table_view(env@), table_view(secrets@)),
{
    match transport {
        McpTransportConfig::Stdio { command, args } => McpTransportConfig::Stdio {
            command: interpolate_refs(command.as_str(), env, secrets),
            args: resolve_args(&args, env, secrets),
        },
        McpTransportConfig::Http { url, headers } => McpTransportConfig::Http {
            url: interpolate_refs(url.as_str(), env, secrets),
            headers: resolve_headers(&headers, env, secrets),
        },
        McpTransportConfig::Sse { url, headers } => McpTransportConfig::Sse {
            url: interpolate_refs(url.as_str(), env, secrets),
            headers: resolve_headers(&headers, env, secrets),
        },
        McpTransportConfig::Websocket { url } => McpTransportConfig::Websocket {
            url: interpolate_refs(url.as_str(), env, secrets),
        },
    }
}

/// Resolves the secret references of one server's transport; the name is
/// kept.
pub fn resolve_server_env(
    server: McpServerConfig,
    env: &Vec<(String, String)>,
    secrets: &Vec<(String, String)>,
) -> (r: McpServerConfig)
    ensures
        r.name == server.name,
        r.transport@ == resolved_transport(
            server.transport@,
            table_view(env@),
            table_view(secrets@),
        ),
{
    McpServerConfig {
        name: server.name,
        transport: interpolate_transport(server.transport, env, secrets),
    }
}

/// The file of a configuration directory `dir` that its MCP servers are read
/// from: `mcp.toml` where it exists, else the file's earlier name
/// `mcp-servers.toml` where that exists (so that servers configured before
/// the rename do not silently vanish), else none, which reads as no servers.
pub fn mcp_file_in(dir: &str, current_exists: bool, legacy_exists: bool) -> (r: Option<String>)
    ensures
        current_exists ==> (r matches Some(p) && p@ == join_path(dir@, "mcp.toml"@)),
        !current_exists && legacy_exists ==> (r matches Some(p) && p@ == join_path(
            dir@,
            "mcp-servers.toml"@,
        )),
        !current_exists && !legacy_exists ==> r is None,
{
    let name = if current_exists {
        "mcp.toml"
    } else if legacy_exists {
        "mcp-servers.toml"
    } else {
        return None;
    };
    let p = join_path_chars(chars_of(dir).as_slice(), chars_of(name).as_slice());
    Some(string_from(p.as_slice()))
}

/// Merges the user-level and the project-level `mcp.toml` without resolving
/// references: a project server replaces the user-level server of the same
/// name in place; every other entry of both files is kept, user-level first.
pub fn load_mcp_servers_raw(user_file: McpServersFile, project_file: McpServersFile) -> (r: Vec<
    McpServerConfig,
>)
    ensures
        r@ == layered(user_file.servers@, project_file.servers@),
{
    layer(user_file.servers, project_file.servers)
}

/// Merges the two files as [`load_mcp_servers_raw`] does, then resolves the
/// references of every server.
pub fn load_mcp_servers(
    user_file: McpServersFile,
    project_file: McpServersFile,
    env: &Vec<(String, String)>,
    secrets: &Vec<(String, String)>,
) -> (r: Vec<McpServerConfig>)
    ensures
        r@.len() == layered(user_file.servers@, project_file.servers@).len(),
        forall|i: int|
            0 <= i < r@.len() ==> {
                let raw = layered(user_file.servers@, project_file.servers@)[i];
                &&& (#[trigger] r@[i]).name == raw.name
                &&& r@[i].transport@ == resolved_transport(
                    raw.transport@,
                    table_view(env@),
                    table_view(secrets@),
                )
            },
{
    let raw = load_mcp_servers_raw(user_file, project_file);
    let ghost raw_view = raw@;
    let mut rev: Vec<McpServerConfig> = Vec::new();
    let mut rest = raw;
    while rest.len() > 0
        invariant
            raw_view == rest@ + rev@.reverse(),
        decreases rest@.len(),
    {
        let ghost before = rest@;
        let ghost rb = rev@;
        let s = rest.pop().unwrap();
        assert(before == rest@.push(s));
        rev.push(s);
        assert(rev@.reverse() =~= seq![s] + rb.reverse());
        assert(rest@.push(s) + rb.reverse() =~= rest@ + (seq![s] + rb.reverse()));
    }
    assert(raw_view =~= rev@.reverse());
    let mut out: Vec<McpServerConfig> = Vec::new();
    let ghost n = rev@.len();
    while rev.len() > 0
        invariant
            n == raw_view.len(),
            rev@.len() <= n,
            out@.len() == n - rev@.len(),
            forall|j: int| 0 <= j < rev@.len() ==> rev@[j] == raw_view[n - 1 - j],
            forall|j: int|
                0 <= j < out@.len() ==> {
                    &&& (#[trigger] out@[j]).name == raw_view[j].name
                    &&& out@[j].transport@ == resolved_transport(
                        raw_view[j].transport@,
                        table_view(env@),
                        table_view(secrets@),
                    )
                },
        decreases rev@.len(),
    {
        let ghost rb = rev@;
        let s = rev.pop().unwrap();
        assert(s == rb[rb.len() - 1]);
        assert(s == raw_view[out@.len() as int]);
        out.push(resolve_server_env(s, env, secrets));
    }
    out
}

} // verus!
