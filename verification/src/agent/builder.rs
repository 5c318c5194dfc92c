//! The system prompt an agent is built with.
use vstd::prelude::*;

use crate::text::{append, chars_of, string_from, trim, trimmed, CharClass};

verus! {

/// The standing instructions every agent gets.
pub open spec fn default_system_prompt() -> Seq<char> {
    "You are local-code, a coding assistant that talks only to local/local-network LLM backends. You can read, write, and edit files, run shell commands, and search the codebase via your tools. Prefer edit_file for targeted changes over rewriting whole files with write_file. Always explain what you're about to do before calling a tool that changes the filesystem or runs a command."@
}

/// The system prompt: the standing instructions, followed after a blank line
/// by the extra context (the project guidance, the core memories) unless
/// that is blank.
pub fn system_prompt(extra_system_context: &str) -> (r: String)
    ensures
        trim(extra_system_context@, CharClass::WhiteSpace).len() == 0 ==> r@
            == default_system_prompt(),
        trim(extra_system_context@, CharClass::WhiteSpace).len() > 0 ==> r@
            == default_system_prompt() + "\n\n"@ + extra_system_context@,
{
    let base = "You are local-code, a coding assistant that talks only to local/local-network LLM backends. You can read, write, and edit files, run shell commands, and search the codebase via your tools. Prefer edit_file for targeted changes over rewriting whole files with write_file. Always explain what you're about to do before calling a tool that changes the filesystem or runs a command.";
    let extra = chars_of(extra_system_context);
    if trimmed(extra.as_slice(), &CharClass::WhiteSpace).len() == 0 {
        return base.to_owned();
    }
    let mut m = chars_of(base);
    append(&mut m, chars_of("\n\n").as_slice());
    append(&mut m, extra.as_slice());
    string_from(m.as_slice())
}

} // verus!
