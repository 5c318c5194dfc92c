//! The optional project guidance put in front of a conversation: guidance
//! files (such as `AGENTS.md`) of the project and of the user.
use vstd::prelude::*;

use crate::config::paths::Paths;
use crate::text::{
    append, chars_of, chars_views, join, join_chars, join_path, join_path_chars, string_from,
    trim, trimmed, CharClass,
};

verus! {

/// One place guidance may be read from, and the label its section gets.
#[derive(Debug)]
pub struct ContextSource {
    pub path: String,
    pub label: String,
}

/// Where guidance is looked for: each guidance file name under the project
/// root, labelled `Project <name>`, then each under the user's
/// configuration directory, labelled `User-level <name>`.
pub open spec fn source_spec(
    project_root: Seq<char>,
    user_config_dir: Seq<char>,
    names: Seq<String>,
    i: int,
) -> (Seq<char>, Seq<char>) {
    if i < names.len() {
        (join_path(project_root, names[i]@), "Project "@ + names[i]@)
    } else {
        let n = names[i - names.len()]@;
        (join_path(user_config_dir, n), "User-level "@ + n)
    }
}

fn source(dir: &str, file: &str, prefix: &str) -> (r: ContextSource)
    ensures
        r.path@ == join_path(dir@, file@),
        r.label@ == prefix@ + file@,
{
    let p = join_path_chars(chars_of(dir).as_slice(), chars_of(file).as_slice());
    let mut label = chars_of(prefix);
    append(&mut label, chars_of(file).as_slice());
    ContextSource { path: string_from(p.as_slice()), label: string_from(label.as_slice()) }
}

/// The places guidance is read from, in the order their sections appear:
/// the project's files first, then the user's.
pub fn context_sources(paths: &Paths, project_root: &str, names: &[String]) -> (r: Vec<
    ContextSource,
>)
    requires
        2 * names@.len() <= usize::MAX,
    ensures
        r@.len() == 2 * names@.len(),
        forall|i: int|
            0 <= i < r@.len() ==> (#[trigger] r@[i]).path@ == source_spec(
                project_root@,
                paths.user_config_dir@,
                names@,
                i,
            ).0 && r@[i].label@ == source_spec(project_root@, paths.user_config_dir@, names@, i).1,
{
    let mut r: Vec<ContextSource> = Vec::new();
    let mut i: usize = 0;
    while i < names.len()
        invariant
            i <= names@.len(),
            r@.len() == i,
            forall|k: int|
                0 <= k < i ==> (#[trigger] r@[k]).path@ == source_spec(
                    project_root@,
                    paths.user_config_dir@,
                    names@,
                    k,
                ).0 && r@[k].label@ == source_spec(
                    project_root@,
                    paths.user_config_dir@,
                    names@,
                    k,
                ).1,
        decreases names@.len() - i,
    {
        r.push(source(project_root, names[i].as_str(), "Project "));
        i = i + 1;
    }
    let mut j: usize = 0;
    while j < names.len()
        invariant
            j <= names@.len(),
            2 * names@.len() <= usize::MAX,
            r@.len() == names@.len() + j,
            forall|k: int|
                0 <= k < r@.len() ==> (#[trigger] r@[k]).path@ == source_spec(
                    project_root@,
                    paths.user_config_dir@,
                    names@,
                    k,
                ).0 && r@[k].label@ == source_spec(
                    project_root@,
                    paths.user_config_dir@,
                    names@,
                    k,
                ).1,
        decreases names@.len() - j,
    {
        r.push(source(paths.user_config_dir.as_str(), names[j].as_str(), "User-level "));
        j = j + 1;
    }
    r
}

/// A file counts when it could be read and holds more than white space.
pub open spec fn counts(content: Option<String>) -> bool {
    content matches Some(c) && trim(c@, CharClass::WhiteSpace).len() > 0
}

/// The sections of the files that count: `## <label>`, a blank line, then
/// the file's text.
pub open spec fn sections(read: Seq<(String, Option<String>)>) -> Seq<Seq<char>>
    decreases read.len(),
{
    if read.len() == 0 {
        Seq::empty()
    } else {
        let rest = sections(read.drop_last());
        let (label, content) = read.last();
        if counts(content) {
            rest.push("## "@ + label@ + "\n\n"@ + content->0@)
        } else {
            rest
        }
    }
}

/// The guidance, from each source's label and what reading it gave (`None`
/// where the file is missing or unreadable): the sections of the files
/// that count, in order, separated by a blank line; empty when none does.
pub fn project_context(read: &[(String, Option<String>)]) -> (r: String)
    ensures
        r@ == join(sections(read@), "\n\n"@),
{
    let mut parts: Vec<Vec<char>> = Vec::new();
    let mut i: usize = 0;
    while i < read.len()
        invariant
            i <= read@.len(),
            chars_views(parts@) =~= sections(read@.take(i as int)),
        decreases read@.len() - i,
    {
        assert(read@.take(i + 1).drop_last() =~= read@.take(i as int));
        let ghost before = parts@;
        let (label, content) = &read[i];
        match content {
            Some(c) => {
                let cs = chars_of(c.as_str());
                if trimmed(cs.as_slice(), &CharClass::WhiteSpace).len() > 0 {
                    let mut s = chars_of("## ");
                    append(&mut s, chars_of(label.as_str()).as_slice());
                    append(&mut s, chars_of("\n\n").as_slice());
                    append(&mut s, cs.as_slice());
                    parts.push(s);
                    assert forall|j: int| 0 <= j < parts@.len() implies #[trigger] chars_views(
                        parts@,
                    )[j] == sections(read@.take(i + 1))[j] by {
                        if j < before.len() {
                            assert(chars_views(before)[j] == sections(read@.take(i as int))[j]);
                        }
                    }
                }
            },
            None => {},
        }
        assert(chars_views(parts@) =~= sections(read@.take(i + 1)));
        i = i + 1;
    }
    assert(read@.take(read@.len() as int) =~= read@);
    let r = join_chars(&parts, chars_of("\n\n").as_slice());
    string_from(r.as_slice())
}

} // verus!
