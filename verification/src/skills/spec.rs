//! Skill specs as users type them: `owner/repo[/path][@ref]`, optionally
//! prefixed `gh:`, `gl:` or `bb:` to pick the host, or an `https://` URL on
//! github.com, gitlab.com or bitbucket.org. A GitLab project path may be
//! nested in groups, so where it ends and the in-repo path begins is left
//! for the host's API to resolve.
use vstd::prelude::*;

use crate::marketplace::git_url_forms::{
    lemma_has_char_concat, lemma_split_at_first, lemma_strip_prefix_of, plain_segment,
};
use crate::skills::types::{Host, SkillSource, SkillSourceView};
use crate::text::{
    append, chars_of, rsplit_once, rsplit_once_at, same, split_once, split_once_at, string_from,
    strip_prefix, stripped_prefix, trim, trimmed, CharClass, has_char, has_prefix, is_white_space,
};

verus! {

/// A spec parsed as far as it can be without asking the host.
#[derive(Debug)]
pub struct ParsedSpec {
    pub source: SkillSource,
    /// GitLab specs: `source.repo` holds the whole path, to be split into
    /// project path and in-repo path by the host.
    pub needs_project_path_resolution: bool,
}

/// A spec that names no skill.
#[derive(Debug)]
pub enum SpecError {
    Invalid(String),
}

/// The host a spec picks and the rest of its body.
pub open spec fn host_and_rest(body: Seq<char>) -> Option<(Host, Seq<char>)> {
    match strip_prefix(body, "gh:"@) {
        Some(r) => Some((Host::GitHub, r)),
        None => match strip_prefix(body, "gl:"@) {
            Some(r) => Some((Host::GitLab, r)),
            None => match strip_prefix(body, "bb:"@) {
                Some(r) => Some((Host::Bitbucket, r)),
                None => match strip_prefix(body, "https://"@) {
                    Some(u) => match split_once(u, '/') {
                        Some((domain, path)) => if domain == "github.com"@ {
                            Some((Host::GitHub, path))
                        } else if domain == "gitlab.com"@ {
                            Some((Host::GitLab, path))
                        } else if domain == "bitbucket.org"@ {
                            Some((Host::Bitbucket, path))
                        } else {
                            None
                        },
                        None => None,
                    },
                    None => Some((Host::GitHub, body)),
                },
            },
        },
    }
}

/// What a spec names, and whether the host must still split a GitLab path.
pub open spec fn parse_spec_spec(spec: Seq<char>) -> Option<(SkillSourceView, bool)> {
    let t = trim(spec, CharClass::WhiteSpace);
    let (body, git_ref) = match rsplit_once(t, '@') {
        Some((b, r)) => (b, Some(r)),
        None => (t, None),
    };
    if git_ref matches Some(r) && r.len() == 0 {
        None
    } else {
        match host_and_rest(body) {
            None => None,
            Some((host, raw)) => {
                let rest = trim(raw, CharClass::Exactly('/'));
                if host == Host::GitLab {
                    if rest.len() == 0 {
                        None
                    } else {
                        Some(
                            (
                                SkillSourceView {
                                    host,
                                    owner: Seq::empty(),
                                    repo: rest,
                                    path: Seq::empty(),
                                    git_ref,
                                },
                                true,
                            ),
                        )
                    }
                } else {
                    match split_once(rest, '/') {
                        None => None,
                        Some((owner, after)) => {
                            let (repo, path) = match split_once(after, '/') {
                                Some((r, p)) => (r, p),
                                None => (after, Seq::empty()),
                            };
                            if owner.len() > 0 && repo.len() > 0 {
                                Some(
                                    (SkillSourceView { host, owner, repo, path, git_ref }, false),
                                )
                            } else {
                                None
                            }
                        },
                    }
                }
            },
        }
    }
}

fn host_and_rest_exec(body: &[char]) -> (r: Option<(Host, Vec<char>)>)
    ensures
        match r {
            Some((h, rest)) => host_and_rest(body@) == Some((h, rest@)),
            None => host_and_rest(body@) is None,
        },
{
    if let Some(r) = stripped_prefix(body, chars_of("gh:").as_slice()) {
        return Some((Host::GitHub, r));
    }
    if let Some(r) = stripped_prefix(body, chars_of("gl:").as_slice()) {
        return Some((Host::GitLab, r));
    }
    if let Some(r) = stripped_prefix(body, chars_of("bb:").as_slice()) {
        return Some((Host::Bitbucket, r));
    }
    match stripped_prefix(body, chars_of("https://").as_slice()) {
        Some(u) => match split_once_at(u.as_slice(), '/') {
            Some((domain, path)) => if same(domain.as_slice(), chars_of("github.com").as_slice()) {
                Some((Host::GitHub, path))
            } else if same(domain.as_slice(), chars_of("gitlab.com").as_slice()) {
                Some((Host::GitLab, path))
            } else if same(domain.as_slice(), chars_of("bitbucket.org").as_slice()) {
                Some((Host::Bitbucket, path))
            } else {
                None
            },
            None => None,
        },
        None => {
            let mut all: Vec<char> = Vec::new();
            append(&mut all, body);
            Some((Host::GitHub, all))
        },
    }
}

/// Parses a skill spec; refused when it names no owner and repository (or,
/// for GitLab, no path), or ends in an empty `@` ref.
pub fn parse_spec(spec: &str) -> (r: Result<ParsedSpec, SpecError>)
    ensures
        match parse_spec_spec(spec@) {
            Some((src, needs)) => r matches Ok(p) && p.source@ == src
                && p.needs_project_path_resolution == needs,
            None => r matches Err(SpecError::Invalid(s)) && s@ == spec@,
        },
{
    let t = trimmed(chars_of(spec).as_slice(), &CharClass::WhiteSpace);
    let (body, git_ref) = match rsplit_once_at(t.as_slice(), '@') {
        Some((b, r)) => (b, Some(r)),
        None => (t, None),
    };
    let git_ref_string = match &git_ref {
        Some(r) => {
            if r.len() == 0 {
                return Err(SpecError::Invalid(spec.to_owned()));
            }
            Some(string_from(r.as_slice()))
        },
        None => None,
    };
    let (host, raw) = match host_and_rest_exec(body.as_slice()) {
        Some(x) => x,
        None => {
            return Err(SpecError::Invalid(spec.to_owned()));
        },
    };
    let rest = trimmed(raw.as_slice(), &CharClass::Exactly('/'));
    if host == Host::GitLab {
        if rest.len() == 0 {
            return Err(SpecError::Invalid(spec.to_owned()));
        }
        return Ok(
            ParsedSpec {
                source: SkillSource {
                    host,
                    owner: String::new(),
                    repo: string_from(rest.as_slice()),
                    path: String::new(),
                    git_ref: git_ref_string,
                },
                needs_project_path_resolution: true,
            },
        );
    }
    match split_once_at(rest.as_slice(), '/') {
        None => Err(SpecError::Invalid(spec.to_owned())),
        Some((owner, after)) => {
            let (repo, path) = match split_once_at(after.as_slice(), '/') {
                Some((r, p)) => (r, p),
                None => (after, Vec::new()),
            };
            if owner.len() > 0 && repo.len() > 0 {
                Ok(
                    ParsedSpec {
                        source: SkillSource {
                            host,
                            owner: string_from(owner.as_slice()),
                            repo: string_from(repo.as_slice()),
                            path: string_from(path.as_slice()),
                            git_ref: git_ref_string,
                        },
                        needs_project_path_resolution: false,
                    },
                )
            } else {
                Err(SpecError::Invalid(spec.to_owned()))
            }
        },
    }
}

/// The spec `<prefix>owner/repo` for a prefix of three characters ending in
/// `:` and plain owner and repository names: facts shared by the prefixes.
#[verifier::rlimit(40)]
proof fn lemma_prefixed_body(prefix: Seq<char>, owner: Seq<char>, repo: Seq<char>)
    requires
        prefix.len() == 3,
        prefix[2] == ':',
        prefix[0] == 'g' || prefix[0] == 'b',
        prefix[1] != '@' && prefix[0] != '@',
        plain_segment(owner),
        plain_segment(repo),
    ensures
        trim(prefix + owner + "/"@ + repo, CharClass::WhiteSpace) == prefix + owner + "/"@ + repo,
        rsplit_once(prefix + owner + "/"@ + repo, '@') is None,
        strip_prefix(prefix + owner + "/"@ + repo, prefix) == Some(owner + "/"@ + repo),
        trim(owner + "/"@ + repo, CharClass::Exactly('/')) == owner + "/"@ + repo,
        split_once(owner + "/"@ + repo, '/') == Some((owner, repo)),
        split_once(repo, '/') is None,
{
    reveal_strlit("/");
    let p = owner + "/"@ + repo;
    let s = prefix + owner + "/"@ + repo;
    assert(s =~= prefix + p);
    assert(s[0] == prefix[0]);
    assert(s.last() == repo.last());
    assert(!is_white_space(repo[repo.len() - 1]));
    assert(trim(s, CharClass::WhiteSpace) == s);
    assert(!has_char(prefix, '@')) by {
        if has_char(prefix, '@') {
            let i = choose|i: int| 0 <= i < prefix.len() && prefix[i] == '@';
        }
    }
    assert(!has_char("/"@, '@'));
    lemma_has_char_concat(owner, "/"@, '@');
    lemma_has_char_concat(owner + "/"@, repo, '@');
    lemma_has_char_concat(prefix, p, '@');
    assert(!has_char(s, '@'));
    lemma_strip_prefix_of(prefix, p);
    assert(p[0] == owner[0]);
    assert(owner[0] != '/') by {
        if owner[0] == '/' {
            assert(has_char(owner, '/'));
        }
    }
    assert(p.last() == repo.last());
    assert(repo.last() != '/') by {
        if repo.last() == '/' {
            assert(has_char(repo, '/'));
        }
    }
    assert(trim(p, CharClass::Exactly('/')) == p);
    assert(p =~= owner + seq!['/'] + repo);
    lemma_split_at_first(owner, repo, '/');
}

/// A host prefix picks its host: `gh:owner/repo` names the GitHub
/// repository and `bb:owner/repo` the Bitbucket one, both with no path and
/// no ref; `gl:owner/repo` names the GitLab project `owner/repo`, which the
/// host still splits into project and in-repo path.
#[verifier::rlimit(40)]
pub proof fn host_prefixes_pick_their_host(owner: Seq<char>, repo: Seq<char>)
    requires
        plain_segment(owner),
        plain_segment(repo),
    ensures
        parse_spec_spec("gh:"@ + owner + "/"@ + repo) == Some(
            (
                SkillSourceView {
                    host: Host::GitHub,
                    owner,
                    repo,
                    path: Seq::empty(),
                    git_ref: None,
                },
                false,
            ),
        ),
        parse_spec_spec("bb:"@ + owner + "/"@ + repo) == Some(
            (
                SkillSourceView {
                    host: Host::Bitbucket,
                    owner,
                    repo,
                    path: Seq::empty(),
                    git_ref: None,
                },
                false,
            ),
        ),
        parse_spec_spec("gl:"@ + owner + "/"@ + repo) == Some(
            (
                SkillSourceView {
                    host: Host::GitLab,
                    owner: Seq::empty(),
                    repo: owner + "/"@ + repo,
                    path: Seq::empty(),
                    git_ref: None,
                },
                true,
            ),
        ),
{
    reveal_strlit("gh:");
    reveal_strlit("gl:");
    reveal_strlit("bb:");
    let gh: Seq<char> = "gh:"@;
    let gl: Seq<char> = "gl:"@;
    let bb: Seq<char> = "bb:"@;
    assert(gh =~= seq!['g', 'h', ':']);
    assert(gl =~= seq!['g', 'l', ':']);
    assert(bb =~= seq!['b', 'b', ':']);
    lemma_prefixed_body(gh, owner, repo);
    lemma_prefixed_body(gl, owner, repo);
    lemma_prefixed_body(bb, owner, repo);
    let sl = gl + owner + "/"@ + repo;
    assert(!has_prefix(sl, gh)) by {
        if has_prefix(sl, gh) {
            assert(sl.take(3)[1] == sl[1]);
        }
    }
    let sb = bb + owner + "/"@ + repo;
    assert(!has_prefix(sb, gh)) by {
        if has_prefix(sb, gh) {
            assert(sb.take(3)[0] == sb[0]);
        }
    }
    assert(!has_prefix(sb, gl)) by {
        if has_prefix(sb, gl) {
            assert(sb.take(3)[0] == sb[0]);
        }
    }
}

} // verus!
