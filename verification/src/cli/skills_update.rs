//! `local-code skills update [name]`: which installed skills are fetched
//! again, what is printed about the others, and the report once every
//! fetch has finished. Skills installed from a plugin are left to
//! `plugin update`, which goes through the plugin's marketplace.
use vstd::prelude::*;

use crate::cli::skills::{traversal_shaped, validate_skill_name};
use crate::skills::types::{Host, InstalledSkillManifest};
use crate::text::{append, chars_of, decimal, decimal_chars, string_from};

verus! {

/// The refusal of updating a named skill that is not installed.
pub open spec fn not_installed_message(name: Seq<char>) -> Seq<char> {
    "no skill named '"@ + name + "' is installed in this scope"@
}

/// The first step of `skills update [name]`, before any network access or
/// file change: a named skill must have a safe name, and must be installed
/// in the scope (`installed`, whether its directory exists there); an
/// update of every skill of the scope (`None`) is never refused here.
pub fn check_skills_update(name: Option<&str>, installed: bool) -> (r: Result<(), String>)
    ensures
        name is None ==> r is Ok,
        name matches Some(n) ==> {
            &&& traversal_shaped(n@) ==> (r matches Err(e) && e@ == "skill name '"@ + n@
                + "' must not contain path separators or '..'"@)
            &&& !traversal_shaped(n@) && !installed ==> (r matches Err(e) && e@
                == not_installed_message(n@))
            &&& !traversal_shaped(n@) && installed ==> r is Ok
        },
{
    match name {
        None => Ok(()),
        Some(n) => {
            validate_skill_name(n)?;
            if installed {
                Ok(())
            } else {
                let mut m = chars_of("no skill named '");
                append(&mut m, chars_of(n).as_slice());
                append(&mut m, chars_of("' is installed in this scope").as_slice());
                Err(string_from(m.as_slice()))
            }
        },
    }
}

/// What reading an installed skill's manifest gave.
#[derive(Debug)]
pub enum ManifestRead {
    Read(InstalledSkillManifest),
    /// The manifest could not be read: the error's text.
    Unreadable(String),
}

/// What is printed about one skill before any fetch: a skipped skill, or
/// one that its plugin manages; nothing for a skill that is updated.
pub open spec fn note_of(name: Seq<char>, read: ManifestRead) -> Seq<char> {
    match read {
        ManifestRead::Unreadable(e) => "warning: skipping skill '"@ + name + "': "@ + e@ + "\n"@,
        ManifestRead::Read(m) => match m.plugin {
            Some(p) => "Skill '"@ + name + "' is managed by plugin '"@ + p.plugin@ + "@"@
                + p.marketplace@ + "' \u{2014} use `local-code plugin update "@ + p.plugin@
                + "` to update it\n"@,
            None => Seq::empty(),
        },
    }
}

/// The notes of all the skills, in order.
pub open spec fn notes(reads: Seq<(String, ManifestRead)>) -> Seq<char>
    decreases reads.len(),
{
    if reads.len() == 0 {
        Seq::empty()
    } else {
        notes(reads.drop_last()) + note_of(reads.last().0@, reads.last().1)
    }
}

/// The skills that are fetched again, with their hosts: those whose
/// manifest was read and names no plugin.
pub open spec fn updatable(reads: Seq<(String, ManifestRead)>) -> Seq<(Seq<char>, Host)>
    decreases reads.len(),
{
    if reads.len() == 0 {
        Seq::empty()
    } else {
        let rest = updatable(reads.drop_last());
        match reads.last().1 {
            ManifestRead::Read(m) => if m.plugin is None {
                rest.push((reads.last().0@, m.host))
            } else {
                rest
            },
            ManifestRead::Unreadable(_) => rest,
        }
    }
}

/// The hosts of `skills` without repeats, in order of first appearance:
/// one client is built per host and shared by its skills.
pub open spec fn distinct_hosts(skills: Seq<(Seq<char>, Host)>) -> Seq<Host>
    decreases skills.len(),
{
    if skills.len() == 0 {
        Seq::empty()
    } else {
        let rest = distinct_hosts(skills.drop_last());
        if rest.contains(skills.last().1) {
            rest
        } else {
            rest.push(skills.last().1)
        }
    }
}

/// Every skill to update finds the client of its host, and no host gets
/// two clients.
pub proof fn one_client_per_host(skills: Seq<(Seq<char>, Host)>)
    ensures
        forall|i: int| 0 <= i < skills.len() ==> distinct_hosts(skills).contains(#[trigger] skills[i].1),
        distinct_hosts(skills).no_duplicates(),
    decreases skills.len(),
{
    if skills.len() > 0 {
        let rest = skills.drop_last();
        one_client_per_host(rest);
        let d = distinct_hosts(rest);
        let last = skills.last().1;
        let full = distinct_hosts(skills);
        assert(full == if d.contains(last) { d } else { d.push(last) });
        assert forall|i: int| 0 <= i < skills.len() implies full.contains(
            #[trigger] skills[i].1,
        ) by {
            if i < skills.len() - 1 {
                assert(rest[i] == skills[i]);
                assert(d.contains(rest[i].1));
                let k = choose|k: int| 0 <= k < d.len() && d[k] == rest[i].1;
                if !d.contains(last) {
                    assert(d.push(last)[k] == d[k]);
                }
            } else if !d.contains(last) {
                assert(d.push(last)[d.len() as int] == last);
            }
        }
    }
}

/// What `skills update` does before fetching.
#[derive(Debug)]
pub struct SkillsUpdatePlan {
    /// Printed before any fetch.
    pub notes: String,
    /// The skills fetched again, with their hosts, in order.
    pub skills: Vec<(String, Host)>,
    /// The hosts a client is built for.
    pub hosts: Vec<Host>,
}

pub open spec fn skills_view(v: Seq<(String, Host)>) -> Seq<(Seq<char>, Host)> {
    v.map_values(|p: (String, Host)| (p.0@, p.1))
}

pub open spec fn nothing_installed_message() -> Seq<char> {
    "No skills installed in this scope.\n"@
}

fn contains_host(v: &Vec<Host>, h: Host) -> (r: bool)
    ensures
        r == v@.contains(h),
{
    let mut i: usize = 0;
    while i < v.len()
        invariant
            i <= v@.len(),
            forall|j: int| 0 <= j < i ==> v@[j] != h,
        decreases v@.len() - i,
    {
        if v[i] == h {
            return true;
        }
        i = i + 1;
    }
    false
}

/// Plans `skills update` over the skills of the scope (`reads`: each one's
/// name and what reading its manifest gave). With no skill, the plan only
/// says so. A skill named on the command line (`named`, the only one) whose
/// manifest cannot be read fails the command with the reading error;
/// otherwise an unreadable skill is skipped with a warning.
pub fn plan_skills_update(named: bool, reads: &[(String, ManifestRead)]) -> (r: Result<
    SkillsUpdatePlan,
    String,
>)
    requires
        named ==> reads@.len() == 1,
    ensures
        reads@.len() == 0 ==> (r matches Ok(p) && p.notes@ == nothing_installed_message()
            && p.skills@.len() == 0 && p.hosts@.len() == 0),
        named ==> match reads@[0].1 {
            ManifestRead::Unreadable(e) => r matches Err(m) && m@ == e@,
            ManifestRead::Read(_) => true,
        },
        reads@.len() > 0 && !(named && reads@[0].1 is Unreadable) ==> (r matches Ok(p) && p.notes@
            == notes(reads@) && skills_view(p.skills@) == updatable(reads@) && p.hosts@
            == distinct_hosts(updatable(reads@))),
{
    if reads.len() == 0 {
        return Ok(
            SkillsUpdatePlan {
                notes: "No skills installed in this scope.\n".to_owned(),
                skills: Vec::new(),
                hosts: Vec::new(),
            },
        );
    }
    if named {
        if let ManifestRead::Unreadable(e) = &reads[0].1 {
            return Err(e.clone());
        }
    }
    let mut out: Vec<char> = Vec::new();
    let mut skills: Vec<(String, Host)> = Vec::new();
    let mut hosts: Vec<Host> = Vec::new();
    let mut i: usize = 0;
    while i < reads.len()
        invariant
            i <= reads@.len(),
            out@ == notes(reads@.take(i as int)),
            skills_view(skills@) == updatable(reads@.take(i as int)),
            hosts@ == distinct_hosts(updatable(reads@.take(i as int))),
        decreases reads@.len() - i,
    {
        assert(reads@.take(i + 1).drop_last() =~= reads@.take(i as int));
        let name = &reads[i].0;
        match &reads[i].1 {
            ManifestRead::Unreadable(e) => {
                append(&mut out, chars_of("warning: skipping skill '").as_slice());
                append(&mut out, chars_of(name.as_str()).as_slice());
                append(&mut out, chars_of("': ").as_slice());
                append(&mut out, chars_of(e.as_str()).as_slice());
                append(&mut out, chars_of("\n").as_slice());
            },
            ManifestRead::Read(m) => match &m.plugin {
                Some(p) => {
                    append(&mut out, chars_of("Skill '").as_slice());
                    append(&mut out, chars_of(name.as_str()).as_slice());
                    append(&mut out, chars_of("' is managed by plugin '").as_slice());
                    append(&mut out, chars_of(p.plugin.as_str()).as_slice());
                    append(&mut out, chars_of("@").as_slice());
                    append(&mut out, chars_of(p.marketplace.as_str()).as_slice());
                    append(
                        &mut out,
                        chars_of("' \u{2014} use `local-code plugin update ").as_slice(),
                    );
                    append(&mut out, chars_of(p.plugin.as_str()).as_slice());
                    append(&mut out, chars_of("` to update it\n").as_slice());
                },
                None => {
                    let ghost before = skills@;
                    let ghost u = updatable(reads@.take(i as int));
                    assert(updatable(reads@.take(i + 1)) == u.push((name@, m.host)));
                    assert(u.push((name@, m.host)).drop_last() =~= u);
                    skills.push((name.clone(), m.host));
                    assert(skills_view(skills@) =~= skills_view(before).push((name@, m.host)));
                    if !contains_host(&hosts, m.host) {
                        hosts.push(m.host);
                    }
                },
            },
        }
        i = i + 1;
    }
    assert(reads@.take(reads@.len() as int) =~= reads@);
    Ok(SkillsUpdatePlan { notes: string_from(out.as_slice()), skills, hosts })
}

/// The line reporting one skill's update: updated, already up to date, or
/// failed with the error's text.
pub open spec fn result_line(name: Seq<char>, result: Result<bool, String>) -> Seq<char> {
    match result {
        Ok(true) => "Updated skill '"@ + name + "'\n"@,
        Ok(false) => "Skill '"@ + name + "' is already up to date\n"@,
        Err(e) => "Failed to update skill '"@ + name + "': "@ + e@ + "\n"@,
    }
}

pub open spec fn result_lines(results: Seq<(String, Result<bool, String>)>) -> Seq<char>
    decreases results.len(),
{
    if results.len() == 0 {
        Seq::empty()
    } else {
        result_lines(results.drop_last()) + result_line(results.last().0@, results.last().1)
    }
}

/// How many updates failed.
pub open spec fn failed_count(results: Seq<(String, Result<bool, String>)>) -> nat
    decreases results.len(),
{
    if results.len() == 0 {
        0
    } else {
        failed_count(results.drop_last()) + if results.last().1 is Err {
            1nat
        } else {
            0nat
        }
    }
}

proof fn lemma_failed_count_bounded(results: Seq<(String, Result<bool, String>)>)
    ensures
        failed_count(results) <= results.len(),
    decreases results.len(),
{
    if results.len() > 0 {
        lemma_failed_count_bounded(results.drop_last());
    }
}

/// What `skills update` prints once every fetch has finished, in the order
/// of the plan, and whether the command fails: it does when any update
/// failed, the others having been carried out.
pub fn skills_update_report(results: &[(String, Result<bool, String>)]) -> (r: (
    String,
    Result<(), String>,
))
    ensures
        r.0@ == result_lines(results@),
        failed_count(results@) == 0 ==> r.1 is Ok,
        failed_count(results@) > 0 ==> (r.1 matches Err(e) && e@ == decimal(failed_count(results@))
            + " skill update(s) failed"@),
{
    let mut out: Vec<char> = Vec::new();
    let mut failures: usize = 0;
    let mut i: usize = 0;
    while i < results.len()
        invariant
            i <= results@.len(),
            out@ == result_lines(results@.take(i as int)),
            failures == failed_count(results@.take(i as int)),
        decreases results@.len() - i,
    {
        assert(results@.take(i + 1).drop_last() =~= results@.take(i as int));
        proof {
            lemma_failed_count_bounded(results@.take(i as int));
        }
        let name = &results[i].0;
        match &results[i].1 {
            Ok(true) => {
                append(&mut out, chars_of("Updated skill '").as_slice());
                append(&mut out, chars_of(name.as_str()).as_slice());
                append(&mut out, chars_of("'\n").as_slice());
            },
            Ok(false) => {
                append(&mut out, chars_of("Skill '").as_slice());
                append(&mut out, chars_of(name.as_str()).as_slice());
                append(&mut out, chars_of("' is already up to date\n").as_slice());
            },
            Err(e) => {
                append(&mut out, chars_of("Failed to update skill '").as_slice());
                append(&mut out, chars_of(name.as_str()).as_slice());
                append(&mut out, chars_of("': ").as_slice());
                append(&mut out, chars_of(e.as_str()).as_slice());
                append(&mut out, chars_of("\n").as_slice());
                failures = failures + 1;
            },
        }
        i = i + 1;
    }
    assert(results@.take(results@.len() as int) =~= results@);
    let text = string_from(out.as_slice());
    if failures == 0 {
        (text, Ok(()))
    } else {
        let mut e = decimal_chars(failures);
        append(&mut e, chars_of(" skill update(s) failed").as_slice());
        (text, Err(string_from(e.as_slice())))
    }
}

} // verus!
