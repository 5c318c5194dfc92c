//! `local-code connections ...`: what listing, removing and adding
//! connections show and change.
use vstd::prelude::*;

use crate::cli::Removal;
use crate::config::connection::{Connection, ConnectionView, ProviderKind};
use crate::config::layering::{has_key, remove_key, without_key, without_key_law};
use crate::text::{append, chars_of, string_from, trim, trimmed, CharClass};

verus! {

/// How a provider kind is printed in the listing (its `Debug` form).
pub open spec fn provider_label(p: ProviderKind) -> Seq<char> {
    match p {
        ProviderKind::OpenAiCompatible => "OpenAiCompatible"@,
        ProviderKind::Ollama => "Ollama"@,
        ProviderKind::OpenRouter => "OpenRouter"@,
    }
}

fn provider_label_exec(p: ProviderKind) -> (r: Vec<char>)
    ensures
        r@ == provider_label(p),
{
    match p {
        ProviderKind::OpenAiCompatible => chars_of("OpenAiCompatible"),
        ProviderKind::Ollama => chars_of("Ollama"),
        ProviderKind::OpenRouter => chars_of("OpenRouter"),
    }
}

/// The listing line of one connection; `has_key` tells whether an API key
/// is stored for it.
pub open spec fn connection_line(c: ConnectionView, has_key: bool) -> Seq<char> {
    c.name + "  ["@ + provider_label(c.provider) + "]  "@ + c.base_url + "  (default model: "@
        + c.default_model + ")"@ + (if has_key {
        "  [key stored]"@
    } else {
        Seq::empty()
    }) + "\n"@
}

pub open spec fn connection_lines(rows: Seq<(Connection, bool)>) -> Seq<char>
    decreases rows.len(),
{
    if rows.len() == 0 {
        Seq::empty()
    } else {
        connection_lines(rows.drop_last()) + connection_line(rows.last().0@, rows.last().1)
    }
}

/// What `connections list` prints for `rows`, each connection with whether
/// a key is stored for it.
pub open spec fn connections_listing(rows: Seq<(Connection, bool)>) -> Seq<char> {
    if rows.len() == 0 {
        "No connections configured. Run `local-code connections add`.\n"@
    } else {
        connection_lines(rows)
    }
}

/// What `connections list` prints: each connection, its provider, address
/// and default model, and whether a key is stored.
pub fn list(rows: &[(Connection, bool)]) -> (r: String)
    ensures
        r@ == connections_listing(rows@),
{
    if rows.len() == 0 {
        return "No connections configured. Run `local-code connections add`.\n".to_owned();
    }
    let mut out: Vec<char> = Vec::new();
    let mut i: usize = 0;
    while i < rows.len()
        invariant
            i <= rows@.len(),
            out@ == connection_lines(rows@.take(i as int)),
        decreases rows@.len() - i,
    {
        assert(rows@.take(i + 1).drop_last() =~= rows@.take(i as int));
        let c = &rows[i].0;
        append(&mut out, chars_of(c.name.as_str()).as_slice());
        append(&mut out, chars_of("  [").as_slice());
        append(&mut out, provider_label_exec(c.provider).as_slice());
        append(&mut out, chars_of("]  ").as_slice());
        append(&mut out, chars_of(c.base_url.as_str()).as_slice());
        append(&mut out, chars_of("  (default model: ").as_slice());
        append(&mut out, chars_of(c.default_model.as_str()).as_slice());
        append(&mut out, chars_of(")").as_slice());
        if rows[i].1 {
            append(&mut out, chars_of("  [key stored]").as_slice());
        }
        append(&mut out, chars_of("\n").as_slice());
        i = i + 1;
    }
    assert(rows@.take(rows@.len() as int) =~= rows@);
    string_from(out.as_slice())
}

/// `connections remove <name>`: the connections without those named
/// `name`, whether any was removed (its key is then deleted too), and the
/// message for the user.
pub fn remove(connections: Vec<Connection>, name: &str) -> (r: Removal<Connection>)
    ensures
        r.remaining@ == without_key(connections@, name@),
        r.removed <==> has_key(connections@, name@),
        r.removed ==> r.message@ == "Removed connection '"@ + name@ + "'.\n"@,
        !r.removed ==> r.message@ == "No connection named '"@ + name@ + "' found.\n"@,
{
    let before = connections.len();
    let ghost orig = connections@;
    let remaining = remove_key(connections, chars_of(name).as_slice());
    proof {
        without_key_law(orig, name@);
    }
    let removed = remaining.len() != before;
    let mut m = if removed {
        chars_of("Removed connection '")
    } else {
        chars_of("No connection named '")
    };
    append(&mut m, chars_of(name).as_slice());
    if removed {
        append(&mut m, chars_of("'.\n").as_slice());
    } else {
        append(&mut m, chars_of("' found.\n").as_slice());
    }
    Removal { remaining, removed, message: string_from(m.as_slice()) }
}

/// The lines the `connections add` wizard read, as typed.
#[derive(Debug, Clone)]
pub struct ConnectionAnswers {
    pub name: String,
    pub provider: String,
    pub base_url: String,
    pub default_model: String,
    pub api_key: String,
}

/// What the wizard decided.
#[derive(Debug)]
pub struct AddedConnection {
    /// The new connection.
    pub connection: Connection,
    /// The list to save: the existing connections without any of the same
    /// name, then the new one.
    pub connections: Vec<Connection>,
    /// The key to store for it, when one was given.
    pub api_key: Option<String>,
    pub message: String,
}

pub open spec fn ws_trim(s: Seq<char>) -> Seq<char> {
    trim(s, CharClass::WhiteSpace)
}

fn trim_string(s: &String) -> (r: String)
    ensures
        r@ == ws_trim(s@),
{
    string_from(trimmed(chars_of(s.as_str()).as_slice(), &CharClass::WhiteSpace).as_slice())
}

/// `connections add`: builds the connection from the wizard's answers (each
/// trimmed; provider `2` is Ollama, anything else OpenAI-compatible),
/// replaces any connection of the same name, and keeps a non-empty key for
/// storing.
pub fn add(answers: &ConnectionAnswers, existing: Vec<Connection>) -> (r: AddedConnection)
    ensures
        r.connection.name@ == ws_trim(answers.name@),
        r.connection.provider == (if ws_trim(answers.provider@) == "2"@ {
            ProviderKind::Ollama
        } else {
            ProviderKind::OpenAiCompatible
        }),
        r.connection.base_url@ == ws_trim(answers.base_url@),
        r.connection.default_model@ == ws_trim(answers.default_model@),
        r.connection.models@.len() == 0,
        r.connection.effort is None,
        r.connections@.len() > 0,
        r.connections@.drop_last() == without_key(existing@, ws_trim(answers.name@)),
        r.connections@.last()@ == r.connection@,
        ws_trim(answers.api_key@).len() == 0 ==> r.api_key is None,
        ws_trim(answers.api_key@).len() > 0 ==> (r.api_key matches Some(k) && k@ == ws_trim(
            answers.api_key@,
        )),
        r.message@ == "Saved connection '"@ + ws_trim(answers.name@) + "'.\n"@,
{
    let name = trim_string(&answers.name);
    let choice = trim_string(&answers.provider);
    let provider = if crate::text::same(
        chars_of(choice.as_str()).as_slice(),
        chars_of("2").as_slice(),
    ) {
        ProviderKind::Ollama
    } else {
        ProviderKind::OpenAiCompatible
    };
    let connection = Connection {
        name,
        provider,
        base_url: trim_string(&answers.base_url),
        default_model: trim_string(&answers.default_model),
        models: Vec::new(),
        effort: None,
    };
    let mut connections = remove_key(existing, chars_of(connection.name.as_str()).as_slice());
    let copy = connection.copy();
    connections.push(connection);
    assert(connections@.drop_last() =~= without_key(existing@, ws_trim(answers.name@)));
    let key = trim_string(&answers.api_key);
    let api_key = if chars_of(key.as_str()).len() > 0 {
        Some(key)
    } else {
        None
    };
    let mut m = chars_of("Saved connection '");
    append(&mut m, chars_of(copy.name.as_str()).as_slice());
    append(&mut m, chars_of("'.\n").as_slice());
    AddedConnection { connection: copy, connections, api_key, message: string_from(m.as_slice()) }
}

} // verus!
