//! The command line: its commands and flags, and the decisions the `run`
//! entry point makes before handing over to a command.
use vstd::prelude::*;

use crate::permissions::types::PermissionTier;
use crate::session::types::{SessionSummary, SessionSummaryView};
use crate::text::{
    append, chars_of, decimal, decimal_chars, is_digit, lemma_decimal_digits, parse_usize,
    parse_usize_spec, split_once, split_once_at, string_from, trim, trimmed, usize_body, CharClass,
};

pub mod connections;
pub mod marketplace;
pub mod mcp;
pub mod memory;
pub mod plugin;
pub mod secret;
pub mod skills;
pub mod skills_update;

verus! {

/// The parsed command line.
#[derive(Debug)]
pub struct Cli {
    pub command: Option<Command>,
    /// `-p`/`--prompt`: run one prompt headlessly and print the response.
    pub prompt: Option<String>,
    /// `--connection`: the connection for `-p`.
    pub connection: Option<String>,
    /// `--permission-mode`: overrides the tier for `-p`.
    pub permission_mode: Option<PermissionModeArg>,
    /// `--resume`: resume a previous session of this project.
    pub resume: bool,
}

/// The subcommands.
#[derive(Debug)]
pub enum Command {
    Connections { action: ConnectionsAction },
    Mcp { action: McpAction },
    Memory { action: MemoryAction },
    Skills { action: SkillsAction },
}

#[derive(Debug)]
pub enum McpAction {
    Add,
    List,
    Remove { name: String },
}

#[derive(Debug)]
pub enum ConnectionsAction {
    Add,
    List,
    Remove { name: String },
}

#[derive(Debug)]
pub enum MemoryAction {
    /// Keyword-search the memory files.
    Search { query: String },
    /// Print the core memories in full.
    Core,
    /// Append a manual entry to the short-term buffer.
    Add { text: String },
}

#[derive(Debug)]
pub enum SkillsAction {
    /// Install a skill: `owner/repo[/path][@ref]`.
    Install { spec: String, global: bool, name: Option<String> },
    /// List installed skills of both scopes.
    List,
    /// Remove an installed skill.
    Remove { name: String, global: bool },
    /// Re-fetch a skill, or every skill of the scope, whose ref has moved.
    Update { name: Option<String>, global: bool },
}

/// The result of removing the entries of a name from a configuration list:
/// what remains (to be saved when something was removed), and the message
/// for the user.
#[derive(Debug)]
pub struct Removal<T> {
    pub remaining: Vec<T>,
    pub removed: bool,
    pub message: String,
}

/// The values of `--permission-mode`.
#[derive(Debug, Clone, Copy, PartialEq, Eq, Structural)]
pub enum PermissionModeArg {
    Ask,
    AutoAcceptEdits,
    FullAuto,
}

impl PermissionModeArg {
    /// The tier a mode selects.
    pub fn into_tier(self) -> (r: PermissionTier)
        ensures
            self == PermissionModeArg::Ask ==> r == PermissionTier::Ask,
            self == PermissionModeArg::AutoAcceptEdits ==> r == PermissionTier::AutoAcceptEdits,
            self == PermissionModeArg::FullAuto ==> r == PermissionTier::FullAuto,
    {
        match self {
            PermissionModeArg::Ask => PermissionTier::Ask,
            PermissionModeArg::AutoAcceptEdits => PermissionTier::AutoAcceptEdits,
            PermissionModeArg::FullAuto => PermissionTier::FullAuto,
        }
    }
}

/// Whether a tier override needs an interactive terminal to answer
/// permission prompts: every tier that can prompt does.
pub fn requires_interactive_stdin(tier: Option<PermissionTier>) -> (r: bool)
    ensures
        r == (tier == Some(PermissionTier::Ask) || tier == Some(PermissionTier::AutoAcceptEdits)),
{
    match tier {
        Some(PermissionTier::Ask) => true,
        Some(PermissionTier::AutoAcceptEdits) => true,
        _ => false,
    }
}

/// The refusal of `-p` with a tier that can prompt when standard input is
/// not a terminal.
pub open spec fn non_interactive_refusal() -> Seq<char> {
    "--permission-mode ask/auto-accept-edits requires an interactive terminal to answer permission prompts, but stdin is not a TTY (e.g. running under a script or pipe). Use --permission-mode full-auto for non-interactive/scripted invocations instead."@
}

/// Whether a headless run may start: refused when its tier can prompt and
/// no terminal can answer.
pub fn check_headless_stdin(tier: Option<PermissionTier>, stdin_is_terminal: bool) -> (r: Result<
    (),
    String,
>)
    ensures
        (tier == Some(PermissionTier::Ask) || tier == Some(PermissionTier::AutoAcceptEdits))
            && !stdin_is_terminal ==> (r matches Err(m) && m@ == non_interactive_refusal()),
        !((tier == Some(PermissionTier::Ask) || tier == Some(PermissionTier::AutoAcceptEdits))
            && !stdin_is_terminal) ==> r is Ok,
{
    if requires_interactive_stdin(tier) && !stdin_is_terminal {
        Err("--permission-mode ask/auto-accept-edits requires an interactive terminal to answer permission prompts, but stdin is not a TTY (e.g. running under a script or pipe). Use --permission-mode full-auto for non-interactive/scripted invocations instead.".to_owned())
    } else {
        Ok(())
    }
}

/// The views of a list of session summaries.
pub open spec fn summaries_view(v: Seq<SessionSummary>) -> Seq<SessionSummaryView> {
    v.map_values(|s: SessionSummary| s@)
}

pub open spec fn preview_part(p: Option<Seq<char>>) -> Seq<char> {
    match p {
        Some(p) => " · \""@ + p + "\""@,
        None => Seq::empty(),
    }
}

/// Row `i` (counted from 0) of the session listing.
pub open spec fn session_row(i: nat, s: SessionSummaryView) -> Seq<char> {
    "  "@ + decimal(i + 1) + ") "@ + s.updated_at + " · "@ + s.connection_name + " · "@
        + s.model_name + preview_part(s.first_user_turn_preview) + "\n"@
}

/// The rows of the session listing.
pub open spec fn session_rows(v: Seq<SessionSummaryView>) -> Seq<char>
    decreases v.len(),
{
    if v.len() == 0 {
        Seq::empty()
    } else {
        session_rows(v.drop_last()) + session_row((v.len() - 1) as nat, v.last())
    }
}

/// What is shown before the user chooses a session.
pub open spec fn resume_listing(v: Seq<SessionSummaryView>) -> Seq<char> {
    if v.len() == 0 {
        "No previous sessions found for this project.\n"@
    } else if v.len() == 1 {
        "Resuming the only previous session ("@ + v[0].updated_at + ").\n"@
    } else {
        "Previous sessions for this project:\n"@ + session_rows(v) + "Resume which session? [1-"@
            + decimal(v.len()) + ", blank for most recent]: "@
    }
}

/// The session (counted from 0) an answer picks among `count`: a number
/// from 1 to `count` picks that session; a blank, or anything else, the
/// most recent one.
pub open spec fn resume_choice(count: nat, answer: Seq<char>) -> nat {
    let t = trim(answer, CharClass::WhiteSpace);
    match parse_usize_spec(t) {
        Some(n) => if t.len() > 0 && 1 <= n && n <= count {
            (n - 1) as nat
        } else {
            0
        },
        None => 0,
    }
}

/// Answering the resume question with a listed number `n` (written in
/// decimal, white space around it allowed) picks the `n`-th session of the
/// listing, newest first: index `n - 1`.
pub proof fn answering_n_picks_the_nth_session(count: nat, n: nat, answer: Seq<char>)
    requires
        1 <= n <= count,
        n <= usize::MAX,
        trim(answer, CharClass::WhiteSpace) == decimal(n),
    ensures
        resume_choice(count, answer) == n - 1,
{
    lemma_decimal_digits(n);
    let d = decimal(n);
    assert(is_digit(d[0]));
    assert(usize_body(d) == d);
    assert(parse_usize_spec(d) == Some(n));
}

/// A blank answer, or one naming no listed session (zero, too large, not a
/// number), picks the most recent session.
pub proof fn other_answers_pick_the_newest(count: nat, answer: Seq<char>)
    requires
        match parse_usize_spec(trim(answer, CharClass::WhiteSpace)) {
            Some(n) => n < 1 || n > count,
            None => true,
        },
    ensures
        resume_choice(count, answer) == 0,
{
}

/// The first line of `input`, without its line break.
pub open spec fn first_line(input: Seq<char>) -> Seq<char> {
    match split_once(input, '\n') {
        Some((line, _)) => line,
        None => input,
    }
}

fn session_rows_exec(sessions: &[SessionSummary]) -> (r: Vec<char>)
    ensures
        r@ == session_rows(summaries_view(sessions@)),
{
    let mut out: Vec<char> = Vec::new();
    let mut i: usize = 0;
    while i < sessions.len()
        invariant
            i <= sessions@.len(),
            out@ == session_rows(summaries_view(sessions@).take(i as int)),
        decreases sessions@.len() - i,
    {
        let s = &sessions[i];
        assert(summaries_view(sessions@).take(i + 1).drop_last() =~= summaries_view(sessions@).take(
            i as int,
        ));
        append(&mut out, chars_of("  ").as_slice());
        append(&mut out, decimal_chars(i + 1).as_slice());
        append(&mut out, chars_of(") ").as_slice());
        append(&mut out, chars_of(s.updated_at.as_str()).as_slice());
        append(&mut out, chars_of(" · ").as_slice());
        append(&mut out, chars_of(s.connection_name.as_str()).as_slice());
        append(&mut out, chars_of(" · ").as_slice());
        append(&mut out, chars_of(s.model_name.as_str()).as_slice());
        match &s.first_user_turn_preview {
            Some(p) => {
                append(&mut out, chars_of(" · \"").as_slice());
                append(&mut out, chars_of(p.as_str()).as_slice());
                append(&mut out, chars_of("\"").as_slice());
            },
            None => {},
        }
        append(&mut out, chars_of("\n").as_slice());
        i = i + 1;
    }
    assert(summaries_view(sessions@).take(sessions@.len() as int) =~= summaries_view(sessions@));
    out
}

/// What is shown before the user chooses among `sessions`.
pub fn resume_prompt(sessions: &[SessionSummary]) -> (r: String)
    ensures
        r@ == resume_listing(summaries_view(sessions@)),
{
    let n = sessions.len();
    if n == 0 {
        "No previous sessions found for this project.\n".to_owned()
    } else if n == 1 {
        let mut m = chars_of("Resuming the only previous session (");
        append(&mut m, chars_of(sessions[0].updated_at.as_str()).as_slice());
        append(&mut m, chars_of(").\n").as_slice());
        string_from(m.as_slice())
    } else {
        let mut m = chars_of("Previous sessions for this project:\n");
        append(&mut m, session_rows_exec(sessions).as_slice());
        append(&mut m, chars_of("Resume which session? [1-").as_slice());
        append(&mut m, decimal_chars(n).as_slice());
        append(&mut m, chars_of(", blank for most recent]: ").as_slice());
        string_from(m.as_slice())
    }
}

/// The session an answer picks among `count` (counted from 0).
pub fn resume_choice_index(count: usize, answer: &str) -> (r: usize)
    ensures
        r == resume_choice(count as nat, answer@),
        count > 0 ==> r < count,
{
    let t = trimmed(chars_of(answer).as_slice(), &CharClass::WhiteSpace);
    if t.len() == 0 {
        return 0;
    }
    match parse_usize(t.as_slice()) {
        Some(n) => if 1 <= n && n <= count {
            n - 1
        } else {
            0
        },
        None => 0,
    }
}

/// Resolves which session to resume: the only one without asking; among
/// several, the one the first line of `input` picks (blank or invalid: the
/// most recent). Returns what is shown to the user and the choice.
pub fn select_session_to_resume(sessions: &[SessionSummary], input: &str) -> (r: (
    String,
    Option<SessionSummary>,
))
    ensures
        r.0@ == resume_listing(summaries_view(sessions@)),
        sessions@.len() == 0 ==> r.1 is None,
        sessions@.len() == 1 ==> (r.1 matches Some(s) && s@ == sessions@[0]@),
        sessions@.len() > 1 ==> (r.1 matches Some(s) && s@ == sessions@[resume_choice(
            sessions@.len(),
            first_line(input@),
        ) as int]@),
{
    let shown = resume_prompt(sessions);
    let n = sessions.len();
    if n == 0 {
        return (shown, None);
    }
    if n == 1 {
        return (shown, Some(sessions[0].copy()));
    }
    let cs = chars_of(input);
    let line = match split_once_at(cs.as_slice(), '\n') {
        Some((l, _)) => l,
        None => cs,
    };
    let answer = string_from(line.as_slice());
    let i = resume_choice_index(n, answer.as_str());
    (shown, Some(sessions[i].copy()))
}

} // verus!
