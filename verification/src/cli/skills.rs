//! `local-code skills ...`: name validation, scope labels, the client each
//! host is reached through, and what listing and removing skills print.
use vstd::prelude::*;

use crate::skills::types::{Host, Scope, SkillClient};
use crate::text::{
    append, chars_of, contains_char, contains_seq, has_char, has_infix, split_once,
    split_once_at, string_from,
};

verus! {

/// The label of a scope.
pub open spec fn scope_name(scope: Scope) -> Seq<char> {
    match scope {
        Scope::Project => "project"@,
        Scope::Global => "global"@,
    }
}

/// The label of a scope, as printed.
pub fn scope_label(scope: Scope) -> (r: &'static str)
    ensures
        r@ == scope_name(scope),
{
    match scope {
        Scope::Project => "project",
        Scope::Global => "global",
    }
}

/// The scope a `--global` flag selects.
pub fn scope_of(global: bool) -> (r: Scope)
    ensures
        r == (if global {
            Scope::Global
        } else {
            Scope::Project
        }),
{
    if global {
        Scope::Global
    } else {
        Scope::Project
    }
}

/// A skill name that could leave the skills directory: one with a path
/// separator or `..`.
pub open spec fn traversal_shaped(name: Seq<char>) -> bool {
    has_char(name, '/') || has_char(name, '\\') || has_infix(name, ".."@)
}

/// Refuses a skill name with a path separator or `..`.
pub fn validate_skill_name(name: &str) -> (r: Result<(), String>)
    ensures
        traversal_shaped(name@) <==> r is Err,
        r matches Err(e) ==> e@ == "skill name '"@ + name@
            + "' must not contain path separators or '..'"@,
{
    let cs = chars_of(name);
    if contains_char(cs.as_slice(), '/') || contains_char(cs.as_slice(), '\\') || contains_seq(
        cs.as_slice(),
        chars_of("..").as_slice(),
    ) {
        let mut m = chars_of("skill name '");
        append(&mut m, cs.as_slice());
        append(&mut m, chars_of("' must not contain path separators or '..'").as_slice());
        return Err(string_from(m.as_slice()));
    }
    Ok(())
}

pub open spec fn bitbucket_malformed_message() -> Seq<char> {
    "bitbucket credential is malformed: expected 'username:app_password', found no ':' separator"@
}

/// The client for `host`, built with the key stored for it (`stored_key`:
/// the keyring entry named after the host). A Bitbucket key must read
/// `username:app_password`.
pub fn skill_client(host: Host, stored_key: Option<String>) -> (r: Result<SkillClient, String>)
    ensures
        host == Host::GitHub ==> (r matches Ok(SkillClient::GitHub { token }) && token
            == stored_key),
        host == Host::GitLab ==> (r matches Ok(SkillClient::GitLab { token }) && token
            == stored_key),
        host == Host::Bitbucket ==> match stored_key {
            None => r matches Ok(SkillClient::Bitbucket { credentials: None }),
            Some(k) => match split_once(k@, ':') {
                Some((u, p)) => r matches Ok(SkillClient::Bitbucket { credentials: Some((a, b)) })
                    && a@ == u && b@ == p,
                None => r matches Err(e) && e@ == bitbucket_malformed_message(),
            },
        },
{
    match host {
        Host::GitHub => Ok(SkillClient::GitHub { token: stored_key }),
        Host::GitLab => Ok(SkillClient::GitLab { token: stored_key }),
        Host::Bitbucket => match stored_key {
            None => Ok(SkillClient::Bitbucket { credentials: None }),
            Some(k) => match split_once_at(chars_of(k.as_str()).as_slice(), ':') {
                Some((u, p)) => Ok(
                    SkillClient::Bitbucket {
                        credentials: Some((string_from(u.as_slice()), string_from(p.as_slice()))),
                    },
                ),
                None => Err(
                    "bitbucket credential is malformed: expected 'username:app_password', found no ':' separator".to_owned(),
                ),
            },
        },
    }
}

/// What `skills install` prints once the skill `name` is installed from
/// `spec` into `scope`.
pub fn install_report(name: &str, spec: &str, scope: Scope) -> (r: String)
    ensures
        r@ == "Installed skill '"@ + name@ + "' from "@ + spec@ + " ("@ + scope_name(scope) + ")\n"@,
{
    let mut m = chars_of("Installed skill '");
    append(&mut m, chars_of(name).as_slice());
    append(&mut m, chars_of("' from ").as_slice());
    append(&mut m, chars_of(spec).as_slice());
    append(&mut m, chars_of(" (").as_slice());
    append(&mut m, chars_of(scope_label(scope)).as_slice());
    append(&mut m, chars_of(")\n").as_slice());
    string_from(m.as_slice())
}

/// One installed skill as `skills list` shows it.
#[derive(Debug, Clone)]
pub struct SkillSummary {
    pub name: String,
    pub scope: Scope,
    /// The rendered origin of the skill.
    pub source: String,
}

pub open spec fn skill_rows(s: Seq<SkillSummary>) -> Seq<char>
    decreases s.len(),
{
    if s.len() == 0 {
        Seq::empty()
    } else {
        skill_rows(s.drop_last()) + s.last().name@ + " · "@ + scope_name(s.last().scope) + " · "@
            + s.last().source@ + "\n"@
    }
}

/// What `skills list` prints.
pub fn list(summaries: &[SkillSummary]) -> (r: String)
    ensures
        summaries@.len() == 0 ==> r@ == "No skills installed.\n"@,
        summaries@.len() > 0 ==> r@ == skill_rows(summaries@),
{
    if summaries.len() == 0 {
        return "No skills installed.\n".to_owned();
    }
    let mut out: Vec<char> = Vec::new();
    let mut i: usize = 0;
    while i < summaries.len()
        invariant
            i <= summaries@.len(),
            out@ == skill_rows(summaries@.take(i as int)),
        decreases summaries@.len() - i,
    {
        assert(summaries@.take(i + 1).drop_last() =~= summaries@.take(i as int));
        let s = &summaries[i];
        append(&mut out, chars_of(s.name.as_str()).as_slice());
        append(&mut out, chars_of(" · ").as_slice());
        append(&mut out, chars_of(scope_label(s.scope)).as_slice());
        append(&mut out, chars_of(" · ").as_slice());
        append(&mut out, chars_of(s.source.as_str()).as_slice());
        append(&mut out, chars_of("\n").as_slice());
        i = i + 1;
    }
    assert(summaries@.take(summaries@.len() as int) =~= summaries@);
    string_from(out.as_slice())
}

/// A checked `skills remove`: the scope to remove from and the message to
/// print once removed.
#[derive(Debug)]
pub struct SkillRemoval {
    pub scope: Scope,
    pub message: String,
}

/// `skills remove <name>`: refuses a traversal-shaped name; otherwise the
/// scope and the confirmation.
pub fn remove(name: &str, global: bool) -> (r: Result<SkillRemoval, String>)
    ensures
        traversal_shaped(name@) <==> r is Err,
        r matches Err(e) ==> e@ == "skill name '"@ + name@
            + "' must not contain path separators or '..'"@,
        r matches Ok(x) ==> x.scope == (if global {
            Scope::Global
        } else {
            Scope::Project
        }) && x.message@ == "Removed skill '"@ + name@ + "' ("@ + scope_name(x.scope) + ")\n"@,
{
    validate_skill_name(name)?;
    let scope = scope_of(global);
    let mut m = chars_of("Removed skill '");
    append(&mut m, chars_of(name).as_slice());
    append(&mut m, chars_of("' (").as_slice());
    append(&mut m, chars_of(scope_label(scope)).as_slice());
    append(&mut m, chars_of(")\n").as_slice());
    Ok(SkillRemoval { scope, message: string_from(m.as_slice()) })
}

} // verus!
