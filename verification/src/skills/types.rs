//! The value types shared by skill installation and the plugin marketplace:
//! where a skill comes from, where it is installed, and what an installed
//! skill records about its origin.
use vstd::prelude::*;

verus! {

/// A git host whose API skills and plugins are fetched through.
#[derive(Debug, Clone, Copy, PartialEq, Eq, Structural)]
pub enum Host {
    GitHub,
    GitLab,
    Bitbucket,
}

impl Host {
    /// The host used where none is recorded.
    pub fn default_host() -> (h: Host)
        ensures
            h == Host::GitHub,
    {
        Host::GitHub
    }
}

/// Where a skill is installed: this project, or the user's global scope.
#[derive(Debug, Clone, Copy, PartialEq, Eq, Structural)]
pub enum Scope {
    Project,
    Global,
}

/// Coordinates of a skill or plugin inside a hosted repository.
#[derive(Debug, Clone, PartialEq, Eq)]
pub struct SkillSource {
    pub host: Host,
    pub owner: String,
    pub repo: String,
    pub path: String,
    pub git_ref: Option<String>,
}

/// The mathematical form of [`SkillSource`].
pub struct SkillSourceView {
    pub host: Host,
    pub owner: Seq<char>,
    pub repo: Seq<char>,
    pub path: Seq<char>,
    pub git_ref: Option<Seq<char>>,
}

pub open spec fn opt_view(o: Option<String>) -> Option<Seq<char>> {
    match o {
        Some(s) => Some(s@),
        None => None,
    }
}

impl View for SkillSource {
    type V = SkillSourceView;

    open spec fn view(&self) -> SkillSourceView {
        SkillSourceView {
            host: self.host,
            owner: self.owner@,
            repo: self.repo@,
            path: self.path@,
            git_ref: opt_view(self.git_ref),
        }
    }
}

/// A file fetched from a host (or read from a local directory): its path
/// relative to the directory it was fetched from, `/`-separated, and its
/// contents.
#[derive(Debug, Clone, PartialEq, Eq)]
pub struct FetchedFile {
    pub relative_path: String,
    pub bytes: Vec<u8>,
}

/// The plugin a skill was installed from.
#[derive(Debug, Clone, PartialEq, Eq)]
pub struct PluginProvenance {
    pub marketplace: String,
    pub plugin: String,
}

/// What an installed skill records about its origin.
#[derive(Debug, Clone, PartialEq, Eq)]
pub struct InstalledSkillManifest {
    pub host: Host,
    pub owner: String,
    pub repo: String,
    pub path: String,
    pub git_ref: String,
    pub commit_sha: String,
    pub plugin: Option<PluginProvenance>,
}

/// The client a host is reached through, with the credentials it is built
/// with.
#[derive(Debug)]
pub enum SkillClient {
    GitHub { token: Option<String> },
    GitLab { token: Option<String> },
    /// Bitbucket app passwords come as a user name and a password.
    Bitbucket { credentials: Option<(String, String)> },
}

/// When a skill's instructions reach the model.
#[derive(Debug, Clone, PartialEq, Eq)]
pub enum LoadMode {
    /// Always in the system prompt.
    AlwaysApply,
    /// In the system prompt when a project file matches one of the globs.
    Globs(Vec<String>),
    /// Loaded on demand, through the `skill` tool.
    ModelInvoked,
}

/// A discovered skill.
#[derive(Debug, Clone, PartialEq)]
pub struct Skill {
    pub name: String,
    pub description: String,
    pub scope: Scope,
    pub dir: String,
    pub body: String,
    pub load_mode: LoadMode,
}

} // verus!
