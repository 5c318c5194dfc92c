//! The vocabulary of permission checks: tiers, tool kinds, requests shown to
//! the user and the user's decisions.
use vstd::prelude::*;

use crate::text::{chars_of, same};

verus! {

/// How aggressively the agent may act without asking the user.
#[derive(Debug, Clone, Copy, PartialEq, Eq, Structural)]
pub enum PermissionTier {
    /// Every write, edit and shell call prompts (the default).
    Ask,
    /// File writes and edits are approved; shell commands still prompt.
    AutoAcceptEdits,
    /// Nothing prompts.
    FullAuto,
}

impl Default for PermissionTier {
    fn default() -> (r: PermissionTier)
        ensures
            r == PermissionTier::Ask,
    {
        PermissionTier::Ask
    }
}

/// Coarse classification of a tool call for permission purposes.
#[derive(Debug, Clone, Copy, PartialEq, Eq, Structural)]
pub enum ToolKind {
    /// Never mutates state and never prompts.
    ReadOnly,
    /// Mutates the file system.
    Edit,
    /// Runs a shell command.
    Bash,
}

/// The kind of the tool named `name`: the three built-in readers are
/// read-only, `bash` runs commands, and every other name (the two built-in
/// writers, and any tool not known here) counts as an edit.
pub open spec fn tool_kind(name: Seq<char>) -> ToolKind {
    if name == "read_file"@ || name == "grep"@ || name == "glob"@ {
        ToolKind::ReadOnly
    } else if name == "bash"@ {
        ToolKind::Bash
    } else {
        ToolKind::Edit
    }
}

/// Classifies a tool by name for permission enforcement; an unknown name
/// classifies as an edit, so that it prompts.
pub fn classify_tool(name: &str) -> (r: ToolKind)
    ensures
        r == tool_kind(name@),
{
    let n = chars_of(name);
    proof {
        reveal_strlit("read_file");
        reveal_strlit("grep");
        reveal_strlit("glob");
        reveal_strlit("write_file");
        reveal_strlit("edit_file");
        reveal_strlit("bash");
    }
    assert("write_file"@.len() == 10 && "bash"@.len() == 4 && "edit_file"@.len() == 9);
    assert("read_file"@.len() == 9 && "grep"@.len() == 4 && "glob"@.len() == 4);
    assert("edit_file"@[0] != "read_file"@[0]);
    if same(n.as_slice(), chars_of("read_file").as_slice()) || same(
        n.as_slice(),
        chars_of("grep").as_slice(),
    ) || same(n.as_slice(), chars_of("glob").as_slice()) {
        ToolKind::ReadOnly
    } else if same(n.as_slice(), chars_of("write_file").as_slice()) || same(
        n.as_slice(),
        chars_of("edit_file").as_slice(),
    ) {
        ToolKind::Edit
    } else if same(n.as_slice(), chars_of("bash").as_slice()) {
        ToolKind::Bash
    } else {
        ToolKind::Edit
    }
}

/// A pending tool call as shown to the user.
#[derive(Debug, Clone, PartialEq)]
pub struct PermissionRequest {
    pub tool_name: String,
    pub description: String,
    pub command_preview: Option<String>,
}

/// What the user decided about a request.
#[derive(Debug, Clone, PartialEq, Eq)]
pub enum PermissionDecision {
    Allow,
    AllowAlwaysThisSession,
    Deny { feedback: String },
}

} // verus!
