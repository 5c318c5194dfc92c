//! The forms a repository's git URL can take all name the same repository.
use vstd::prelude::*;

use crate::marketplace::source::{
    git_url_core, parse_git_url_spec, repo_source, source_for_host_path_spec,
    ssh_host_and_path_spec,
};
use crate::skills::types::Host;
use crate::text::{
    after_last, has_char, has_prefix, has_suffix, is_first, is_last, is_white_space, rsplit_once,
    split_once, strip_prefix, trim, trim_end, CharClass,
};

verus! {

/// An owner or repository name as URLs carry it: not empty, without `/`,
/// `:`, `@` or white space.
pub open spec fn plain_segment(s: Seq<char>) -> bool {
    &&& s.len() > 0
    &&& !has_char(s, '/')
    &&& !has_char(s, ':')
    &&& !has_char(s, '@')
    &&& forall|i: int| 0 <= i < s.len() ==> !is_white_space(#[trigger] s[i])
}

pub(crate) proof fn lemma_split_at_first(a: Seq<char>, b: Seq<char>, c: char)
    requires
        !has_char(a, c),
    ensures
        split_once(a + seq![c] + b, c) == Some((a, b)),
{
    let s = a + seq![c] + b;
    let n = a.len() as int;
    assert forall|j: int| 0 <= j < n implies s[j] != c by {
        assert(s[j] == a[j]);
    }
    assert(is_first(s, c, n));
    assert(has_char(s, c));
    let i = choose|i: int| is_first(s, c, i);
    if i < n {
        assert(s[i] == a[i]);
    }
    assert(i == n);
    assert(s.take(i) =~= a);
    assert(s.skip(i + 1) =~= b);
}

proof fn lemma_after_last_at(a: Seq<char>, b: Seq<char>, c: char)
    requires
        !has_char(b, c),
    ensures
        after_last(a + seq![c] + b, c) == b,
{
    let s = a + seq![c] + b;
    let n = a.len() as int;
    assert forall|j: int| n < j < s.len() implies s[j] != c by {
        assert(s[j] == b[j - n - 1]);
    }
    assert(is_last(s, c, n));
    assert(has_char(s, c));
    let i = choose|i: int| is_last(s, c, i);
    if i > n {
        assert(s[i] == b[i - n - 1]);
    }
    assert(i == n);
    assert(rsplit_once(s, c) == Some((s.take(i), s.skip(i + 1))));
    assert(s.skip(i + 1) =~= b);
}

pub(crate) proof fn lemma_has_char_concat(a: Seq<char>, b: Seq<char>, c: char)
    ensures
        has_char(a + b, c) == (has_char(a, c) || has_char(b, c)),
{
    let s = a + b;
    if has_char(s, c) {
        let i = choose|i: int| 0 <= i < s.len() && s[i] == c;
        if i < a.len() {
            assert(a[i] == c);
        } else {
            assert(b[i - a.len()] == c);
        }
    }
    if has_char(a, c) {
        let i = choose|i: int| 0 <= i < a.len() && a[i] == c;
        assert(s[i] == c);
    }
    if has_char(b, c) {
        let i = choose|i: int| 0 <= i < b.len() && b[i] == c;
        assert(s[i + a.len()] == c);
    }
}

pub(crate) proof fn lemma_strip_prefix_of(p: Seq<char>, s: Seq<char>)
    ensures
        strip_prefix(p + s, p) == Some(s),
{
    assert((p + s).take(p.len() as int) =~= p);
    assert((p + s).skip(p.len() as int) =~= s);
}

/// `owner/repo` on a known host gives that repository.
proof fn lemma_host_path(host: Seq<char>, kind: Host, owner: Seq<char>, repo: Seq<char>)
    requires
        (host == "github.com"@ && kind == Host::GitHub) || (host == "bitbucket.org"@ && kind
            == Host::Bitbucket),
        plain_segment(owner),
        plain_segment(repo),
    ensures
        source_for_host_path_spec(host, owner + "/"@ + repo) == Some(repo_source(kind, owner, repo)),
{
    reveal_strlit("/");
    reveal_strlit("github.com");
    reveal_strlit("bitbucket.org");
    assert(owner + "/"@ + repo =~= owner + seq!['/'] + repo);
    lemma_split_at_first(owner, repo, '/');
    assert(split_once(repo, '/') is None);
    assert("github.com"@.len() != "bitbucket.org"@.len());
}

proof fn lemma_plain_host(host: Seq<char>)
    requires
        host == "github.com"@ || host == "bitbucket.org"@,
    ensures
        plain_segment(host),
{
    reveal_strlit("github.com");
    reveal_strlit("bitbucket.org");
    assert forall|i: int| 0 <= i < host.len() implies host[i] != '/' && host[i] != ':' && host[i]
        != '@' && !is_white_space(host[i]) by {
        if host == "github.com"@ {
            assert(host =~= seq!['g', 'i', 't', 'h', 'u', 'b', '.', 'c', 'o', 'm']);
        } else {
            assert(host =~= seq!['b', 'i', 't', 'b', 'u', 'c', 'k', 'e', 't', '.', 'o', 'r', 'g']);
        }
    }
}

/// `host/owner/repo` splits at its first `/` into the host and the path.
proof fn lemma_host_then_path(host: Seq<char>, owner: Seq<char>, repo: Seq<char>)
    requires
        plain_segment(host),
    ensures
        split_once(host + "/"@ + (owner + "/"@ + repo), '/') == Some((host, owner + "/"@ + repo)),
{
    reveal_strlit("/");
    assert(host + "/"@ + (owner + "/"@ + repo) =~= host + seq!['/'] + (owner + "/"@ + repo));
    lemma_split_at_first(host, owner + "/"@ + repo, '/');
}

/// `/repo` at the end rules out a `.git` suffix that `repo` lacks.
proof fn lemma_no_git_suffix(y: Seq<char>, repo: Seq<char>)
    requires
        !has_suffix(repo, ".git"@),
    ensures
        !has_suffix(y + "/"@ + repo, ".git"@),
{
    reveal_strlit(".git");
    reveal_strlit("/");
    let s = y + "/"@ + repo;
    if has_suffix(s, ".git"@) {
        if repo.len() >= 4 {
            assert(s.skip(s.len() - 4) =~= repo.skip(repo.len() - 4));
        } else {
            let k = 3 - repo.len();
            assert(s.skip(s.len() - 4)[k] == s[s.len() - 4 + k]);
            assert(s[s.len() - 1 - repo.len()] == '/');
            assert(".git"@[k] != '/');
        }
    }
}

#[verifier::rlimit(40)]
proof fn lemma_core_plain(t: Seq<char>, repo: Seq<char>)
    requires
        t.len() > 0,
        !is_white_space(t[0]),
        plain_segment(repo),
        exists|y: Seq<char>| t == y + "/"@ + repo,
        !has_suffix(repo, ".git"@),
    ensures
        git_url_core(t) == t,
        git_url_core(t + ".git"@) == t,
        git_url_core(t + "/"@) == t,
{
    reveal_strlit(".git");
    reveal_strlit("/");
    let y = choose|y: Seq<char>| t == y + "/"@ + repo;
    lemma_no_git_suffix(y, repo);
    assert(t.last() == repo.last());
    assert(!is_white_space(repo[repo.len() - 1]));
    assert(repo.last() != '/') by {
        if repo.last() == '/' {
            assert(has_char(repo, '/'));
        }
    }
    assert(trim(t, CharClass::WhiteSpace) == t);
    assert(trim_end(t, CharClass::Exactly('/')) == t);
    let g = t + ".git"@;
    assert(g[0] == t[0]);
    assert(g.last() == 't');
    assert(trim(g, CharClass::WhiteSpace) == g);
    assert(trim_end(g, CharClass::Exactly('/')) == g);
    assert(g.skip(g.len() - 4) =~= ".git"@);
    assert(g.take(g.len() - 4) =~= t);
    let h = t + "/"@;
    assert(h[0] == t[0]);
    assert(h.last() == '/');
    assert(trim(h, CharClass::WhiteSpace) == h);
    assert(h.drop_last() =~= t);
    assert(trim_end(h, CharClass::Exactly('/')) == t);
}

/// What every form needs of host, owner and repository.
pub open spec fn url_parts(host: Seq<char>, kind: Host, owner: Seq<char>, repo: Seq<char>) -> bool {
    &&& (host == "github.com"@ && kind == Host::GitHub) || (host == "bitbucket.org"@ && kind
        == Host::Bitbucket)
    &&& plain_segment(owner)
    &&& plain_segment(repo)
    &&& !has_suffix(repo, ".git"@)
}

#[verifier::rlimit(40)]
proof fn lemma_tail_facts(host: Seq<char>, kind: Host, owner: Seq<char>, repo: Seq<char>)
    requires
        url_parts(host, kind, owner, repo),
    ensures
        plain_segment(host),
        !has_char(owner + "/"@ + repo, '@'),
        !has_char(owner + "/"@ + repo, ':'),
        !has_char(host + "/"@ + (owner + "/"@ + repo), '@'),
        host + "/"@ + (owner + "/"@ + repo) == host + "/"@ + owner + "/"@ + repo,
        source_for_host_path_spec(host, owner + "/"@ + repo) == Some(repo_source(kind, owner, repo)),
        split_once(host + "/"@ + (owner + "/"@ + repo), '/') == Some((host, owner + "/"@ + repo)),
{
    reveal_strlit("/");
    lemma_plain_host(host);
    let p = owner + "/"@ + repo;
    lemma_host_path(host, kind, owner, repo);
    lemma_host_then_path(host, owner, repo);
    assert(!has_char("/"@, '@') && !has_char("/"@, ':'));
    lemma_has_char_concat(owner, "/"@, '@');
    lemma_has_char_concat(owner + "/"@, repo, '@');
    lemma_has_char_concat(owner, "/"@, ':');
    lemma_has_char_concat(owner + "/"@, repo, ':');
    lemma_has_char_concat(host, "/"@, '@');
    lemma_has_char_concat(host + "/"@, p, '@');
    assert(host + "/"@ + p =~= host + "/"@ + owner + "/"@ + repo);
}

#[verifier::rlimit(40)]
proof fn lemma_https_forms(host: Seq<char>, kind: Host, owner: Seq<char>, repo: Seq<char>)
    requires
        url_parts(host, kind, owner, repo),
    ensures
        parse_git_url_spec("https://"@ + host + "/"@ + owner + "/"@ + repo) == Some(
            repo_source(kind, owner, repo),
        ),
        parse_git_url_spec("https://"@ + host + "/"@ + owner + "/"@ + repo + ".git"@) == Some(
            repo_source(kind, owner, repo),
        ),
        parse_git_url_spec("https://"@ + host + "/"@ + owner + "/"@ + repo + "/"@) == Some(
            repo_source(kind, owner, repo),
        ),
{
    reveal_strlit("https://");
    reveal_strlit("ssh://");
    reveal_strlit("https");
    reveal_strlit("//");
    reveal_strlit("/");
    lemma_tail_facts(host, kind, owner, repo);
    let hp = host + "/"@ + (owner + "/"@ + repo);
    let t1 = "https://"@ + hp;
    assert(t1 =~= ("https://"@ + host + "/"@ + owner) + "/"@ + repo);
    lemma_core_plain(t1, repo);
    assert(t1 =~= "https://"@ + host + "/"@ + owner + "/"@ + repo);
    assert(!has_prefix(t1, "ssh://"@)) by {
        if has_prefix(t1, "ssh://"@) {
            assert(t1.take(6)[0] == t1[0]);
        }
    }
    assert(t1 =~= "https"@ + seq![':'] + ("//"@ + hp));
    assert("https"@ =~= seq!['h', 't', 't', 'p', 's']);
    assert(!has_char("https"@, ':'));
    lemma_split_at_first("https"@, "//"@ + hp, ':');
    assert(!has_char("https"@, '@'));
    assert(split_once("https"@, '@') is None);
    assert(ssh_host_and_path_spec(t1) is None);
    assert(t1[5] == ':');
    assert(has_char(t1, ':'));
    lemma_strip_prefix_of("https://"@, hp);
}

#[verifier::rlimit(40)]
proof fn lemma_scp_form(host: Seq<char>, kind: Host, owner: Seq<char>, repo: Seq<char>)
    requires
        url_parts(host, kind, owner, repo),
    ensures
        parse_git_url_spec("git@"@ + host + ":"@ + owner + "/"@ + repo + ".git"@) == Some(
            repo_source(kind, owner, repo),
        ),
{
    reveal_strlit("git@");
    reveal_strlit("git");
    reveal_strlit("ssh://");
    reveal_strlit(":");
    reveal_strlit("/");
    lemma_tail_facts(host, kind, owner, repo);
    let p = owner + "/"@ + repo;
    let a4 = "git@"@ + host;
    let t4 = a4 + seq![':'] + p;
    assert(t4 + ".git"@ =~= "git@"@ + host + ":"@ + owner + "/"@ + repo + ".git"@);
    assert(t4 =~= (a4 + ":"@ + owner) + "/"@ + repo);
    lemma_core_plain(t4, repo);
    assert("git@"@ =~= seq!['g', 'i', 't', '@']);
    assert(!has_char("git@"@, ':'));
    lemma_has_char_concat("git@"@, host, ':');
    assert(!has_prefix(t4, "ssh://"@)) by {
        if has_prefix(t4, "ssh://"@) {
            assert(t4.take(6)[0] == t4[0]);
        }
    }
    lemma_split_at_first(a4, p, ':');
    assert("git"@ =~= seq!['g', 'i', 't']);
    assert(a4 =~= "git"@ + seq!['@'] + host);
    assert(!has_char("git"@, '@'));
    lemma_split_at_first("git"@, host, '@');
    assert(ssh_host_and_path_spec(t4) == Some((host, p)));
}

#[verifier::rlimit(40)]
proof fn lemma_ssh_user_form(host: Seq<char>, kind: Host, owner: Seq<char>, repo: Seq<char>)
    requires
        url_parts(host, kind, owner, repo),
    ensures
        parse_git_url_spec("ssh://git@"@ + host + "/"@ + owner + "/"@ + repo) == Some(
            repo_source(kind, owner, repo),
        ),
{
    reveal_strlit("ssh://git@");
    reveal_strlit("ssh://");
    reveal_strlit("git");
    reveal_strlit("/");
    lemma_tail_facts(host, kind, owner, repo);
    let p = owner + "/"@ + repo;
    let hp = host + "/"@ + p;
    let rest5 = "git"@ + seq!['@'] + hp;
    let t5 = "ssh://"@ + rest5;
    assert(t5 =~= "ssh://git@"@ + host + "/"@ + owner + "/"@ + repo);
    assert(t5 =~= ("ssh://git@"@ + host + "/"@ + owner) + "/"@ + repo);
    lemma_core_plain(t5, repo);
    lemma_strip_prefix_of("ssh://"@, rest5);
    lemma_after_last_at("git"@, hp, '@');
    assert(ssh_host_and_path_spec(t5) == Some((host, p)));
}

#[verifier::rlimit(40)]
proof fn lemma_ssh_form(host: Seq<char>, kind: Host, owner: Seq<char>, repo: Seq<char>)
    requires
        url_parts(host, kind, owner, repo),
    ensures
        parse_git_url_spec("ssh://"@ + host + "/"@ + owner + "/"@ + repo) == Some(
            repo_source(kind, owner, repo),
        ),
{
    reveal_strlit("ssh://");
    reveal_strlit("/");
    lemma_tail_facts(host, kind, owner, repo);
    let p = owner + "/"@ + repo;
    let hp = host + "/"@ + p;
    let t6 = "ssh://"@ + hp;
    assert(t6 =~= "ssh://"@ + host + "/"@ + owner + "/"@ + repo);
    assert(t6 =~= ("ssh://"@ + host + "/"@ + owner) + "/"@ + repo);
    lemma_core_plain(t6, repo);
    lemma_strip_prefix_of("ssh://"@, hp);
    assert(rsplit_once(hp, '@') is None);
    assert(after_last(hp, '@') == hp);
    assert(ssh_host_and_path_spec(t6) == Some((host, p)));
}

#[verifier::rlimit(40)]
proof fn lemma_shorthand_form(owner: Seq<char>, repo: Seq<char>)
    requires
        url_parts("github.com"@, Host::GitHub, owner, repo),
    ensures
        parse_git_url_spec(owner + "/"@ + repo) == Some(repo_source(Host::GitHub, owner, repo)),
{
    reveal_strlit("ssh://");
    reveal_strlit("/");
    lemma_tail_facts("github.com"@, Host::GitHub, owner, repo);
    let p = owner + "/"@ + repo;
    assert(p =~= owner + "/"@ + repo);
    assert(p[0] == owner[0]);
    lemma_core_plain(p, repo);
    assert(!has_prefix(p, "ssh://"@)) by {
        if has_prefix(p, "ssh://"@) {
            assert(p.take(6)[3] == p[3]);
            assert(has_char(p, ':'));
        }
    }
    assert(split_once(p, ':') is None);
    assert(p =~= owner + seq!['/'] + repo);
    lemma_split_at_first(owner, repo, '/');
}

/// Every form of a repository's git URL names the same repository: the
/// `https://` URL with or without `.git` or a trailing `/`, the scp-like
/// `git@host:` form, the `ssh://` form with or without a user and, on
/// GitHub, the `owner/repo` shorthand.
pub proof fn git_url_forms_agree(host: Seq<char>, kind: Host, owner: Seq<char>, repo: Seq<char>)
    requires
        (host == "github.com"@ && kind == Host::GitHub) || (host == "bitbucket.org"@ && kind
            == Host::Bitbucket),
        plain_segment(owner),
        plain_segment(repo),
        !has_suffix(repo, ".git"@),
    ensures
        ({
            let src = Some(repo_source(kind, owner, repo));
            &&& parse_git_url_spec("https://"@ + host + "/"@ + owner + "/"@ + repo) == src
            &&& parse_git_url_spec("https://"@ + host + "/"@ + owner + "/"@ + repo + ".git"@) == src
            &&& parse_git_url_spec("https://"@ + host + "/"@ + owner + "/"@ + repo + "/"@) == src
            &&& parse_git_url_spec("git@"@ + host + ":"@ + owner + "/"@ + repo + ".git"@) == src
            &&& parse_git_url_spec("ssh://git@"@ + host + "/"@ + owner + "/"@ + repo) == src
            &&& parse_git_url_spec("ssh://"@ + host + "/"@ + owner + "/"@ + repo) == src
            &&& kind == Host::GitHub ==> parse_git_url_spec(owner + "/"@ + repo) == src
        }),
{
    lemma_https_forms(host, kind, owner, repo);
    lemma_scp_form(host, kind, owner, repo);
    lemma_ssh_user_form(host, kind, owner, repo);
    lemma_ssh_form(host, kind, owner, repo);
    if kind == Host::GitHub {
        assert(host == "github.com"@) by {
            if host != "github.com"@ {
                assert(kind == Host::Bitbucket);
            }
        }
        lemma_shorthand_form(owner, repo);
    }
}

} // verus!
