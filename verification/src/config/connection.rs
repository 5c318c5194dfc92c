//! Model-server connections: the entries of `connections.toml`, and how the
//! user-level and project-level files combine.
use vstd::prelude::*;

use crate::agent::effort::ReasoningEffort;
use crate::config::layering::{layer, layered, Named};
use crate::text::{chars_of, strings_view};

verus! {

/// The protocol a connection speaks.
#[derive(Debug, Clone, Copy, PartialEq, Eq, Structural)]
pub enum ProviderKind {
    OpenAiCompatible,
    Ollama,
    OpenRouter,
}

/// One named model server.
#[derive(Debug, Clone, PartialEq)]
pub struct Connection {
    pub name: String,
    pub provider: ProviderKind,
    pub base_url: String,
    pub default_model: String,
    pub models: Vec<String>,
    pub effort: Option<ReasoningEffort>,
}

/// The mathematical form of a [`Connection`].
pub struct ConnectionView {
    pub name: Seq<char>,
    pub provider: ProviderKind,
    pub base_url: Seq<char>,
    pub default_model: Seq<char>,
    pub models: Seq<Seq<char>>,
    pub effort: Option<ReasoningEffort>,
}

impl View for Connection {
    type V = ConnectionView;

    open spec fn view(&self) -> ConnectionView {
        ConnectionView {
            name: self.name@,
            provider: self.provider,
            base_url: self.base_url@,
            default_model: self.default_model@,
            models: strings_view(self.models@),
            effort: self.effort,
        }
    }
}

/// A copy of a list of strings.
pub fn copy_strings(v: &Vec<String>) -> (r: Vec<String>)
    ensures
        r@ == v@,
{
    let mut r: Vec<String> = Vec::new();
    let mut i: usize = 0;
    while i < v.len()
        invariant
            i <= v@.len(),
            r@ == v@.take(i as int),
        decreases v@.len() - i,
    {
        r.push(v[i].clone());
        assert(r@ =~= v@.take(i + 1));
        i = i + 1;
    }
    assert(v@.take(v@.len() as int) =~= v@);
    r
}

impl Connection {
    /// A field-for-field copy.
    pub fn copy(&self) -> (r: Connection)
        ensures
            r@ == self@,
            r.models@ == self.models@,
    {
        let models = copy_strings(&self.models);
        Connection {
            name: self.name.clone(),
            provider: self.provider,
            base_url: self.base_url.clone(),
            default_model: self.default_model.clone(),
            models,
            effort: self.effort,
        }
    }
}

impl Named for Connection {
    open spec fn key(&self) -> Seq<char> {
        self.name@
    }

    fn key_chars(&self) -> (r: Vec<char>) {
        chars_of(self.name.as_str())
    }
}

/// The contents of one `connections.toml`.
#[derive(Debug, Clone, PartialEq)]
pub struct ConnectionsFile {
    pub connections: Vec<Connection>,
}

impl ConnectionsFile {
    /// The file with no connection (what a missing file reads as).
    pub fn empty() -> (r: ConnectionsFile)
        ensures
            r.connections@.len() == 0,
    {
        ConnectionsFile { connections: Vec::new() }
    }
}

/// Merges the user-level and the project-level `connections.toml`: a project
/// connection replaces the user-level connection of the same name in place;
/// every other entry of both files is kept, user-level first.
pub fn load_connections(user_file: ConnectionsFile, project_file: ConnectionsFile) -> (r: Vec<
    Connection,
>)
    ensures
        r@ == layered(user_file.connections@, project_file.connections@),
{
    layer(user_file.connections, project_file.connections)
}

} // verus!
