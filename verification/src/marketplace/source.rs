//! Marketplace sources: where a registered marketplace's catalog lives, its
//! one-line rendering, and the parser for the git URLs that `url` and
//! `git-subdir` plugin sources carry.
use vstd::prelude::*;

use crate::skills::spec::{parse_spec, parse_spec_spec, ParsedSpec, SpecError};
use crate::skills::types::{Host, SkillSource, SkillSourceView};
use crate::text::{
    after_last, append, chars_of, contains_char, has_char, has_prefix, owned, starts_with, rsplit_once_at, same, split_once, split_once_at,
    string_from, strip_prefix, strip_suffix, stripped_prefix, stripped_suffix, trim, trim_end, trimmed,
    trimmed_end, wrapped, CharClass,
};

verus! {

/// Where a registered marketplace's catalog lives.
#[derive(Debug, Clone, PartialEq, Eq)]
pub enum MarketplaceSource {
    /// A git-hosted repository; `path` is the marketplace root inside it
    /// (empty for the repository root) and `git_ref` the ref recorded when
    /// the marketplace was added.
    Remote { host: Host, owner: String, repo: String, path: String, git_ref: String },
    /// A marketplace directory on the local filesystem.
    Local { path: String },
}

/// The mathematical form of [`MarketplaceSource`].
pub enum MarketplaceSourceView {
    Remote {
        host: Host,
        owner: Seq<char>,
        repo: Seq<char>,
        path: Seq<char>,
        git_ref: Seq<char>,
    },
    Local { path: Seq<char> },
}

impl View for MarketplaceSource {
    type V = MarketplaceSourceView;

    open spec fn view(&self) -> MarketplaceSourceView {
        match self {
            MarketplaceSource::Remote { host, owner, repo, path, git_ref } => {
                MarketplaceSourceView::Remote {
                    host: *host,
                    owner: owner@,
                    repo: repo@,
                    path: path@,
                    git_ref: git_ref@,
                }
            },
            MarketplaceSource::Local { path } => MarketplaceSourceView::Local { path: path@ },
        }
    }
}

/// `owner/repo` with empty parts left out.
pub open spec fn coords_spec(owner: Seq<char>, repo: Seq<char>) -> Seq<char> {
    if owner.len() == 0 {
        repo
    } else if repo.len() == 0 {
        owner
    } else {
        owner + "/"@ + repo
    }
}

/// The one-line rendering of a source: `owner/repo[/path]@ref`, prefixed
/// `gl:` on GitLab and `bb:` on Bitbucket; `local:<dir>` for a local one.
pub open spec fn summary_spec(src: MarketplaceSourceView) -> Seq<char> {
    match src {
        MarketplaceSourceView::Remote { host, owner, repo, path, git_ref } => {
            let suffix = if path.len() == 0 {
                Seq::empty()
            } else {
                "/"@ + path
            };
            let bare = coords_spec(owner, repo) + suffix + "@"@ + git_ref;
            match host {
                Host::GitHub => bare,
                Host::GitLab => "gl:"@ + bare,
                Host::Bitbucket => "bb:"@ + bare,
            }
        },
        MarketplaceSourceView::Local { path } => "local:"@ + path,
    }
}

impl MarketplaceSource {
    /// A field-for-field copy.
    pub fn copy(&self) -> (r: MarketplaceSource)
        ensures
            r@ == self@,
    {
        match self {
            MarketplaceSource::Remote { host, owner, repo, path, git_ref } => {
                MarketplaceSource::Remote {
                    host: *host,
                    owner: owner.clone(),
                    repo: repo.clone(),
                    path: path.clone(),
                    git_ref: git_ref.clone(),
                }
            },
            MarketplaceSource::Local { path } => MarketplaceSource::Local { path: path.clone() },
        }
    }

    /// One-line rendering for `marketplace list`, e.g. `acme/plugins@main`,
    /// `gl:group/plugins@main` or `local:/abs/dir`.
    pub fn summary(&self) -> (r: String)
        ensures
            r@ == summary_spec(self@),
    {
        match self {
            MarketplaceSource::Remote { host, owner, repo, path, git_ref } => {
                let mut bare: Vec<char> = Vec::new();
                let o = chars_of(owner.as_str());
                let r = chars_of(repo.as_str());
                let slash = chars_of("/");
                append(&mut bare, &o);
                if o.len() > 0 && r.len() > 0 {
                    append(&mut bare, &slash);
                }
                append(&mut bare, &r);
                assert(bare@ == coords_spec(owner@, repo@));
                let p = chars_of(path.as_str());
                if p.len() > 0 {
                    append(&mut bare, &slash);
                    append(&mut bare, &p);
                }
                append(&mut bare, &chars_of("@"));
                append(&mut bare, &chars_of(git_ref.as_str()));
                let mut out: Vec<char> = match host {
                    Host::GitHub => Vec::new(),
                    Host::GitLab => chars_of("gl:"),
                    Host::Bitbucket => chars_of("bb:"),
                };
                append(&mut out, &bare);
                string_from(&out)
            },
            MarketplaceSource::Local { path } => {
                let mut out = chars_of("local:");
                append(&mut out, &chars_of(path.as_str()));
                string_from(&out)
            },
        }
    }
}

/// Why a git URL could not be mapped to host coordinates; carries the URL
/// as given.
#[derive(Debug)]
pub enum GitUrlError {
    Unsupported(String),
}

impl GitUrlError {
    /// The message shown to the user.
    pub fn message(&self) -> (r: String)
        ensures
            self matches GitUrlError::Unsupported(u) ==> r@ == "unsupported git URL '"@ + u@
                + "' \u{2014} url/git-subdir plugin sources support https:// and SSH (git@host: or ssh://) URLs on github.com, gitlab.com, and bitbucket.org, or GitHub owner/repo shorthand"@,
    {
        match self {
            GitUrlError::Unsupported(u) => wrapped(
                "unsupported git URL '",
                u.as_str(),
                "' \u{2014} url/git-subdir plugin sources support https:// and SSH (git@host: or ssh://) URLs on github.com, gitlab.com, and bitbucket.org, or GitHub owner/repo shorthand",
            ),
        }
    }
}

/// `url.trim().trim_end_matches('/')` with one `.git` suffix removed.
pub open spec fn git_url_core(url: Seq<char>) -> Seq<char> {
    let t = trim_end(trim(url, CharClass::WhiteSpace), CharClass::Exactly('/'));
    match strip_suffix(t, ".git"@) {
        Some(u) => u,
        None => t,
    }
}

/// Host and path of an SSH git URL: `ssh://[user@]host/path`, or the
/// scp-like `user@host:path`.
pub open spec fn ssh_host_and_path_spec(s: Seq<char>) -> Option<(Seq<char>, Seq<char>)> {
    match strip_prefix(s, "ssh://"@) {
        Some(rest) => split_once(after_last(rest, '@'), '/'),
        None => match split_once(s, ':') {
            Some((user_host, path)) => match split_once(user_host, '@') {
                Some((_, host)) => Some((host, path)),
                None => None,
            },
            None => None,
        },
    }
}

/// A bare `owner/repo` source on `host`.
pub open spec fn repo_source(host: Host, owner: Seq<char>, repo: Seq<char>) -> SkillSourceView {
    SkillSourceView { host, owner, repo, path: Seq::empty(), git_ref: None }
}

/// Coordinates for a path on a known host: github.com and bitbucket.org
/// take exactly `owner/repo` (a trailing `/` allowed), gitlab.com takes the
/// whole path as the project path.
pub open spec fn source_for_host_path_spec(host: Seq<char>, path: Seq<char>) -> Option<
    SkillSourceView,
> {
    if path.len() == 0 {
        None
    } else if host == "github.com"@ || host == "bitbucket.org"@ {
        let kind = if host == "github.com"@ {
            Host::GitHub
        } else {
            Host::Bitbucket
        };
        match split_once(path, '/') {
            None => None,
            Some((owner, rest)) => {
                let (repo, tail_ok) = match split_once(rest, '/') {
                    Some((r, tail)) => (r, tail.len() == 0),
                    None => (rest, true),
                };
                if owner.len() > 0 && repo.len() > 0 && tail_ok {
                    Some(repo_source(kind, owner, repo))
                } else {
                    None
                }
            },
        }
    } else if host == "gitlab.com"@ {
        Some(repo_source(Host::GitLab, Seq::empty(), path))
    } else {
        None
    }
}

/// The coordinates a git URL names, if it is supported: SSH forms first,
/// then GitHub `owner/repo` shorthand (no `:` at all), then `https://`.
pub open spec fn parse_git_url_spec(url: Seq<char>) -> Option<SkillSourceView> {
    let t = git_url_core(url);
    match ssh_host_and_path_spec(t) {
        Some((host, path)) => source_for_host_path_spec(host, path),
        None => if !has_char(t, ':') {
            match split_once(t, '/') {
                Some((owner, repo)) => if owner.len() > 0 && repo.len() > 0 && !has_char(
                    repo,
                    '/',
                ) {
                    Some(repo_source(Host::GitHub, owner, repo))
                } else {
                    None
                },
                None => None,
            }
        } else {
            match strip_prefix(t, "https://"@) {
                Some(after) => match split_once(after, '/') {
                    Some((domain, path)) => source_for_host_path_spec(domain, path),
                    None => source_for_host_path_spec(after, Seq::empty()),
                },
                None => None,
            }
        },
    }
}

fn ssh_host_and_path(s: &[char]) -> (r: Option<(Vec<char>, Vec<char>)>)
    ensures
        r matches Some((h, p)) ==> ssh_host_and_path_spec(s@) == Some((h@, p@)),
        r is None ==> ssh_host_and_path_spec(s@) is None,
{
    let scheme = chars_of("ssh://");
    match stripped_prefix(s, &scheme) {
        Some(rest) => {
            let after_user = match rsplit_once_at(&rest, '@') {
                Some((_, tail)) => tail,
                None => rest,
            };
            split_once_at(&after_user, '/')
        },
        None => match split_once_at(s, ':') {
            Some((user_host, path)) => match split_once_at(&user_host, '@') {
                Some((_, host)) => Some((host, path)),
                None => None,
            },
            None => None,
        },
    }
}

fn source_for_host_path(host: &[char], path: &[char]) -> (r: Option<SkillSource>)
    ensures
        r matches Some(src) ==> source_for_host_path_spec(host@, path@) == Some(src@),
        r is None ==> source_for_host_path_spec(host@, path@) is None,
{
    if path.len() == 0 {
        return None;
    }
    let github = chars_of("github.com");
    let bitbucket = chars_of("bitbucket.org");
    let gitlab = chars_of("gitlab.com");
    let is_github = same(host, &github);
    if is_github || same(host, &bitbucket) {
        let kind = if is_github {
            Host::GitHub
        } else {
            Host::Bitbucket
        };
        match split_once_at(path, '/') {
            None => None,
            Some((owner, rest)) => {
                let (repo, tail_ok) = match split_once_at(&rest, '/') {
                    Some((r, tail)) => (r, tail.len() == 0),
                    None => (rest, true),
                };
                if owner.len() > 0 && repo.len() > 0 && tail_ok {
                    Some(
                        SkillSource {
                            host: kind,
                            owner: string_from(&owner),
                            repo: string_from(&repo),
                            path: String::new(),
                            git_ref: None,
                        },
                    )
                } else {
                    None
                }
            },
        }
    } else if same(host, &gitlab) {
        Some(
            SkillSource {
                host: Host::GitLab,
                owner: String::new(),
                repo: string_from(path),
                path: String::new(),
                git_ref: None,
            },
        )
    } else {
        None
    }
}

/// Parses the `url` field of `url`/`git-subdir` plugin sources into skill
/// host coordinates: `https://` and SSH URLs on github.com, gitlab.com and
/// bitbucket.org, or GitHub `owner/repo` shorthand, each with an optional
/// `.git` suffix.
pub fn parse_git_url(url: &str) -> (r: Result<SkillSource, GitUrlError>)
    ensures
        r matches Ok(src) ==> parse_git_url_spec(url@) == Some(src@),
        r matches Err(GitUrlError::Unsupported(u)) ==> parse_git_url_spec(url@) is None && u@
            == url@,
{
    let all = chars_of(url);
    let trimmed = trimmed(&all, &CharClass::WhiteSpace);
    let t1 = trimmed_end(&trimmed, &CharClass::Exactly('/'));
    let suffix = chars_of(".git");
    let t = match stripped_suffix(&t1, &suffix) {
        Some(u) => u,
        None => t1,
    };
    assert(t@ == git_url_core(url@));
    let found = match ssh_host_and_path(&t) {
        Some((host, path)) => source_for_host_path(&host, &path),
        None => if !contains_char(&t, ':') {
            match split_once_at(&t, '/') {
                Some((owner, repo)) => if owner.len() > 0 && repo.len() > 0 && !contains_char(
                    &repo,
                    '/',
                ) {
                    Some(
                        SkillSource {
                            host: Host::GitHub,
                            owner: string_from(&owner),
                            repo: string_from(&repo),
                            path: String::new(),
                            git_ref: None,
                        },
                    )
                } else {
                    None
                },
                None => None,
            }
        } else {
            let https = chars_of("https://");
            match stripped_prefix(&t, &https) {
                Some(after) => match split_once_at(&after, '/') {
                    Some((domain, path)) => source_for_host_path(&domain, &path),
                    None => source_for_host_path(&after, &[]),
                },
                None => None,
            }
        },
    };
    match found {
        Some(src) => Ok(src),
        None => Err(GitUrlError::Unsupported(owned(url))),
    }
}

/// The result of parsing a `marketplace add` spec.
#[derive(Debug)]
pub enum ParsedAddSpec {
    /// An existing local directory, as an absolute path.
    Local(String),
    /// A remote skill-style spec.
    Remote(ParsedSpec),
}

/// Why a `marketplace add` spec was refused.
#[derive(Debug)]
pub enum AddSpecError {
    /// The spec looks like a local path, but no such directory exists.
    LocalDirNotFound(String),
    /// The spec is not a valid remote spec either.
    Spec(SpecError),
}

/// Whether a spec looks like a local path: `./`, `../` or `/` in front.
pub open spec fn looks_local(spec: Seq<char>) -> bool {
    has_prefix(spec, "./"@) || has_prefix(spec, "../"@) || has_prefix(spec, "/"@)
}

/// Parses a `marketplace add` spec. `local_dir` is the absolute path of the
/// directory the spec names, when it names an existing one: that is a local
/// marketplace. A spec that looks local but names no directory is refused;
/// anything else is parsed as a remote skill spec.
pub fn parse_add_spec(spec: &str, local_dir: Option<String>) -> (r: Result<
    ParsedAddSpec,
    AddSpecError,
>)
    ensures
        local_dir matches Some(d) ==> (r matches Ok(ParsedAddSpec::Local(p)) && p@ == d@),
        local_dir is None && looks_local(spec@) ==> (r matches Err(
            AddSpecError::LocalDirNotFound(s),
        ) && s@ == spec@),
        local_dir is None && !looks_local(spec@) ==> match parse_spec_spec(spec@) {
            Some((src, needs)) => r matches Ok(ParsedAddSpec::Remote(p)) && p.source@ == src
                && p.needs_project_path_resolution == needs,
            None => r matches Err(AddSpecError::Spec(SpecError::Invalid(s))) && s@ == spec@,
        },
{
    if let Some(d) = local_dir {
        return Ok(ParsedAddSpec::Local(d));
    }
    let cs = chars_of(spec);
    if starts_with(cs.as_slice(), chars_of("./").as_slice()) || starts_with(
        cs.as_slice(),
        chars_of("../").as_slice(),
    ) || starts_with(cs.as_slice(), chars_of("/").as_slice()) {
        return Err(AddSpecError::LocalDirNotFound(spec.to_owned()));
    }
    match parse_spec(spec) {
        Ok(p) => Ok(ParsedAddSpec::Remote(p)),
        Err(e) => Err(AddSpecError::Spec(e)),
    }
}

} // verus!
