//! The request `/init` sends to have a model write AGENTS.md.
use vstd::prelude::*;

use crate::init::survey::ProjectSurvey;
use crate::text::{append, chars_of, decimal, decimal_chars, join, string_from, strings_view};

verus! {

/// The most file paths the prompt lists.
pub const MAX_PATHS_IN_PROMPT: usize = 200;

pub open spec fn max_paths_in_prompt() -> nat {
    MAX_PATHS_IN_PROMPT as nat
}

pub open spec fn init_intro() -> Seq<char> {
    "Generate the contents of an AGENTS.md file for this project. AGENTS.md is read at the start of every coding-agent session and folded into the system prompt — it should describe the project's structure, build/test commands, and any conventions a coding agent should follow. Output only the Markdown content of the file, no preamble.\n\n"@
}

/// The sections of the manifests, each cut to its first 2000 characters.
pub open spec fn manifest_sections(m: Seq<(String, String)>) -> Seq<char>
    decreases m.len(),
{
    if m.len() == 0 {
        Seq::empty()
    } else {
        let (path, content) = m.last();
        let c = if content@.len() > 2000 {
            content@.take(2000)
        } else {
            content@
        };
        manifest_sections(m.drop_last()) + "### "@ + path@ + "\n```\n"@ + c + "\n```\n\n"@
    }
}

/// The header before the list of paths: how many files the project has,
/// and how many of them are listed when that is fewer.
pub open spec fn paths_header(total: nat, listed: nat) -> Seq<char> {
    if total > listed {
        "Project contains "@ + decimal(total) + " files (showing a sample of the first "@ + decimal(
            listed,
        ) + "). Paths:\n"@
    } else {
        "Project contains "@ + decimal(listed) + " files. A sample of paths:\n"@
    }
}

/// The prompt for a survey.
pub open spec fn init_prompt(
    paths: Seq<Seq<char>>,
    manifests: Seq<(String, String)>,
    total: nat,
) -> Seq<char> {
    let listed = if paths.len() > max_paths_in_prompt() {
        max_paths_in_prompt()
    } else {
        paths.len()
    };
    init_intro() + (if manifests.len() > 0 {
        "Detected build manifests:\n\n"@ + manifest_sections(manifests)
    } else {
        Seq::empty()
    }) + paths_header(total, listed) + join(
        paths.take(listed as int).map_values(|p: Seq<char>| "- "@ + p),
        "\n"@,
    ) + "\n"@
}

fn manifest_sections_exec(manifests: &Vec<(String, String)>) -> (r: Vec<char>)
    ensures
        r@ == manifest_sections(manifests@),
{
    let mut sec: Vec<char> = Vec::new();
    let mut i: usize = 0;
    while i < manifests.len()
        invariant
            i <= manifests@.len(),
            sec@ == manifest_sections(manifests@.take(i as int)),
        decreases manifests@.len() - i,
    {
        assert(manifests@.take(i + 1).drop_last() =~= manifests@.take(i as int));
        let (path, content) = &manifests[i];
        let cc = chars_of(content.as_str());
        let c = if cc.len() > 2000 {
            crate::text::slice(cc.as_slice(), 0, 2000)
        } else {
            cc
        };
        append(&mut sec, chars_of("### ").as_slice());
        append(&mut sec, chars_of(path.as_str()).as_slice());
        append(&mut sec, chars_of("\n```\n").as_slice());
        append(&mut sec, c.as_slice());
        append(&mut sec, chars_of("\n```\n\n").as_slice());
        i = i + 1;
    }
    assert(manifests@.take(manifests@.len() as int) =~= manifests@);
    sec
}

fn paths_header_exec(total: usize, listed: usize) -> (r: Vec<char>)
    ensures
        r@ == paths_header(total as nat, listed as nat),
{
    let mut out = chars_of("Project contains ");
    if total > listed {
        append(&mut out, decimal_chars(total).as_slice());
        append(&mut out, chars_of(" files (showing a sample of the first ").as_slice());
        append(&mut out, decimal_chars(listed).as_slice());
        append(&mut out, chars_of("). Paths:\n").as_slice());
    } else {
        append(&mut out, decimal_chars(listed).as_slice());
        append(&mut out, chars_of(" files. A sample of paths:\n").as_slice());
    }
    out
}

fn path_items(paths: &Vec<String>, listed: usize) -> (r: String)
    requires
        listed <= paths@.len(),
    ensures
        r@ == join(
            strings_view(paths@).take(listed as int).map_values(|p: Seq<char>| "- "@ + p),
            "\n"@,
        ),
{
    let ghost pv = strings_view(paths@);
    let mut items: Vec<String> = Vec::new();
    let mut j: usize = 0;
    while j < listed
        invariant
            listed <= paths@.len(),
            pv == strings_view(paths@),
            j <= listed,
            strings_view(items@) == pv.take(j as int).map_values(|p: Seq<char>| "- "@ + p),
        decreases listed - j,
    {
        let mut l = chars_of("- ");
        append(&mut l, chars_of(paths[j].as_str()).as_slice());
        let ghost ib = strings_view(items@);
        items.push(string_from(l.as_slice()));
        assert(strings_view(items@) =~= pv.take(j + 1).map_values(|p: Seq<char>| "- "@ + p)) by {
            assert(pv.take(j + 1).map_values(|p: Seq<char>| "- "@ + p) =~= ib.push(l@));
        }
        j = j + 1;
    }
    crate::text::join_strings(&items, "\n")
}

/// Builds the text of the `/init` request from a survey: the task, the
/// detected manifests (each cut to 2000 characters), and up to 200 paths
/// under a header that says how many files there are and, when fewer are
/// listed, how many are.
pub fn build_init_prompt(survey: &ProjectSurvey) -> (r: String)
    ensures
        r@ == init_prompt(
            strings_view(survey.file_paths@),
            survey.manifests@,
            survey.total_files_seen as nat,
        ),
{
    let mut out = chars_of(
        "Generate the contents of an AGENTS.md file for this project. AGENTS.md is read at the start of every coding-agent session and folded into the system prompt — it should describe the project's structure, build/test commands, and any conventions a coding agent should follow. Output only the Markdown content of the file, no preamble.\n\n",
    );
    let ghost intro = out@;
    if survey.manifests.len() > 0 {
        append(&mut out, chars_of("Detected build manifests:\n\n").as_slice());
        append(&mut out, manifest_sections_exec(&survey.manifests).as_slice());
    }
    let n = survey.file_paths.len();
    let listed: usize = if n > MAX_PATHS_IN_PROMPT {
        MAX_PATHS_IN_PROMPT
    } else {
        n
    };
    append(&mut out, paths_header_exec(survey.total_files_seen, listed).as_slice());
    let items = path_items(&survey.file_paths, listed);
    append(&mut out, chars_of(items.as_str()).as_slice());
    append(&mut out, chars_of("\n").as_slice());
    string_from(out.as_slice())
}

} // verus!
