//! The permission decision engine: which tool calls run at once, which are
//! blocked by a rule, and which the user is asked about; and the per-session
//! "don't ask again" approvals. The prompt itself is asked by the caller,
//! which hands the decision back to [`GateState::record_decision`].
use vstd::prelude::*;

use crate::permissions::settings::{rules_view, PermissionSettings};
use crate::permissions::types::{
    classify_tool, tool_kind, PermissionDecision, PermissionRequest, PermissionTier, ToolKind,
};
use crate::text::{append, chars_of, contains_seq, has_infix, same, string_from};

verus! {

/// The outcome of a permission check.
#[derive(Debug, Clone, PartialEq, Eq)]
pub enum CheckOutcome {
    Allowed,
    /// Denied, with the reason or feedback relayed back to the model.
    Denied(String),
}

/// What a check reads of a call's arguments: its `command` and `path`
/// string fields, where present.
#[derive(Debug, Clone)]
pub struct CallArgs {
    pub command: Option<String>,
    pub path: Option<String>,
}

/// The first step of a check: decided at once, or a question for the user.
#[derive(Debug)]
pub enum GateStep {
    Decided(CheckOutcome),
    /// Ask the user `request`; a session-long approval is recorded under
    /// `key`.
    Ask { key: String, request: PermissionRequest },
}

/// The permission state of a session: the permission mode in force, the
/// settings, and the calls the user allowed for the rest of the session.
pub struct GateState {
    pub tier: PermissionTier,
    pub settings: PermissionSettings,
    pub session_allow: Vec<String>,
}

pub open spec fn opt_view(o: Option<String>) -> Option<Seq<char>> {
    match o {
        Some(s) => Some(s@),
        None => None,
    }
}

/// Whether some rule of `rules` occurs in `command`.
pub open spec fn any_rule_matches(rules: Seq<Seq<char>>, command: Seq<char>) -> bool {
    exists|i: int| 0 <= i < rules.len() && has_infix(command, #[trigger] rules[i])
}

/// How a check ends before the session approvals are consulted: allowed at
/// once, blocked by a deny rule, or left to the tier's question.
pub enum Early {
    Allow,
    DenyRule,
    Tier,
}

/// The decision a check makes before consulting the session approvals:
/// read-only tools run; a shell command matching a deny rule is blocked, and
/// one matching an allow rule runs, whatever the tier; then `FullAuto` runs
/// everything and `AutoAcceptEdits` runs edits.
pub open spec fn early_decision(
    tier: PermissionTier,
    allow: Seq<Seq<char>>,
    deny: Seq<Seq<char>>,
    tool: Seq<char>,
    command: Option<Seq<char>>,
) -> Early {
    let kind = tool_kind(tool);
    if kind == ToolKind::ReadOnly {
        Early::Allow
    } else if kind == ToolKind::Bash && command is Some && any_rule_matches(
        deny,
        command->Some_0,
    ) {
        Early::DenyRule
    } else if kind == ToolKind::Bash && command is Some && any_rule_matches(
        allow,
        command->Some_0,
    ) {
        Early::Allow
    } else if tier == PermissionTier::FullAuto {
        Early::Allow
    } else if tier == PermissionTier::AutoAcceptEdits && kind == ToolKind::Edit {
        Early::Allow
    } else {
        Early::Tier
    }
}

/// The key a session-long approval is recorded under: the exact command, or
/// else the tool and its path, or else the tool alone.
pub open spec fn session_key(
    tool: Seq<char>,
    command: Option<Seq<char>>,
    path: Option<Seq<char>>,
) -> Seq<char> {
    match command {
        Some(c) => "bash:"@ + c,
        None => match path {
            Some(p) => tool + ":"@ + p,
            None => tool,
        },
    }
}

/// The description shown to the user.
pub open spec fn call_description(
    tool: Seq<char>,
    command: Option<Seq<char>>,
    path: Option<Seq<char>>,
) -> Seq<char> {
    let c = match command {
        Some(c) => c,
        None => Seq::empty(),
    };
    let p = match path {
        Some(p) => p,
        None => Seq::empty(),
    };
    if tool == "bash"@ {
        "run shell command: "@ + c
    } else if tool == "write_file"@ {
        "write file: "@ + p
    } else if tool == "edit_file"@ {
        "edit file: "@ + p
    } else {
        "call tool '"@ + tool + "'"@
    }
}

pub open spec fn deny_message(command: Seq<char>) -> Seq<char> {
    "command matches an always-deny rule and was blocked: "@ + command
}

fn any_rule_in(rules: &Vec<String>, command: &[char]) -> (r: bool)
    ensures
        r == any_rule_matches(rules_view(rules@), command@),
{
    let mut i: usize = 0;
    while i < rules.len()
        invariant
            i <= rules@.len(),
            forall|j: int|
                0 <= j < i ==> !has_infix(command@, #[trigger] rules_view(rules@)[j]),
        decreases rules@.len() - i,
    {
        let rule = chars_of(rules[i].as_str());
        if contains_seq(command, rule.as_slice()) {
            assert(has_infix(command@, rules_view(rules@)[i as int]));
            return true;
        }
        i = i + 1;
    }
    false
}

fn opt_chars(o: &Option<String>) -> (r: Option<Vec<char>>)
    ensures
        match r {
            Some(v) => opt_view(*o) == Some(v@),
            None => o is None,
        },
{
    match o {
        Some(s) => Some(chars_of(s.as_str())),
        None => None,
    }
}

fn copy_opt(o: &Option<String>) -> (r: Option<String>)
    ensures
        opt_view(r) == opt_view(*o),
{
    match o {
        Some(s) => Some(s.clone()),
        None => None,
    }
}

fn key_for(tool: &[char], args: &CallArgs) -> (r: Vec<char>)
    ensures
        r@ == session_key(tool@, opt_view(args.command), opt_view(args.path)),
{
    match &args.command {
        Some(c) => {
            let mut k = chars_of("bash:");
            append(&mut k, chars_of(c.as_str()).as_slice());
            k
        },
        None => match &args.path {
            Some(p) => {
                let mut k: Vec<char> = Vec::new();
                append(&mut k, tool);
                append(&mut k, chars_of(":").as_slice());
                append(&mut k, chars_of(p.as_str()).as_slice());
                k
            },
            None => {
                let mut k: Vec<char> = Vec::new();
                append(&mut k, tool);
                k
            },
        },
    }
}

fn describe_call(tool: &[char], args: &CallArgs) -> (r: Vec<char>)
    ensures
        r@ == call_description(tool@, opt_view(args.command), opt_view(args.path)),
{
    let c = match &args.command {
        Some(c) => chars_of(c.as_str()),
        None => Vec::new(),
    };
    let p = match &args.path {
        Some(p) => chars_of(p.as_str()),
        None => Vec::new(),
    };
    proof {
        reveal_strlit("bash");
        reveal_strlit("write_file");
        reveal_strlit("edit_file");
    }
    if same(tool, chars_of("bash").as_slice()) {
        let mut m = chars_of("run shell command: ");
        append(&mut m, c.as_slice());
        m
    } else if same(tool, chars_of("write_file").as_slice()) {
        let mut m = chars_of("write file: ");
        append(&mut m, p.as_slice());
        m
    } else if same(tool, chars_of("edit_file").as_slice()) {
        let mut m = chars_of("edit file: ");
        append(&mut m, p.as_slice());
        m
    } else {
        let mut m = chars_of("call tool '");
        append(&mut m, tool);
        append(&mut m, chars_of("'").as_slice());
        m
    }
}

impl GateState {
    /// The keys approved for the rest of the session.
    pub open spec fn approved(&self) -> Seq<Seq<char>> {
        rules_view(self.session_allow@)
    }

    /// A gate at `tier` with `settings` and no session approval yet.
    pub fn new(tier: PermissionTier, settings: PermissionSettings) -> (r: GateState)
        ensures
            r.tier == tier,
            r.settings == settings,
            r.approved().len() == 0,
    {
        GateState { tier, settings, session_allow: Vec::new() }
    }

    /// Whether `key` was approved for the session.
    pub fn is_approved(&self, key: &[char]) -> (r: bool)
        ensures
            r == self.approved().contains(key@),
    {
        let mut i: usize = 0;
        while i < self.session_allow.len()
            invariant
                i <= self.session_allow@.len(),
                forall|j: int| 0 <= j < i ==> (#[trigger] self.approved()[j]) != key@,
            decreases self.session_allow@.len() - i,
        {
            if same(chars_of(self.session_allow[i].as_str()).as_slice(), key) {
                assert(self.approved()[i as int] == key@);
                return true;
            }
            i = i + 1;
        }
        false
    }

    /// The first step of checking whether `tool_name` may run with `args`:
    /// decided by the tool's kind, the rules and the tier, or by a session
    /// approval; otherwise a question for the user.
    pub fn check(&self, tool_name: &str, args: &CallArgs) -> (r: GateStep)
        ensures
            ({
                let tool = tool_name@;
                let cmd = opt_view(args.command);
                let path = opt_view(args.path);
                let early = early_decision(
                    self.tier,
                    rules_view(self.settings.always_allow@),
                    rules_view(self.settings.always_deny@),
                    tool,
                    cmd,
                );
                let key = session_key(tool, cmd, path);
                match early {
                    Early::Allow => r matches GateStep::Decided(CheckOutcome::Allowed),
                    Early::DenyRule => r matches GateStep::Decided(CheckOutcome::Denied(m)) && m@
                        == deny_message(cmd->Some_0),
                    Early::Tier => if self.approved().contains(key) {
                        r matches GateStep::Decided(CheckOutcome::Allowed)
                    } else {
                        r matches GateStep::Ask { key: k, request } && k@ == key
                            && request.tool_name@ == tool && request.description@
                            == call_description(tool, cmd, path) && opt_view(
                            request.command_preview,
                        ) == cmd
                    },
                }
            }),
    {
        let tool = chars_of(tool_name);
        let kind = classify_tool(tool_name);
        if kind == ToolKind::ReadOnly {
            return GateStep::Decided(CheckOutcome::Allowed);
        }
        if kind == ToolKind::Bash {
            match opt_chars(&args.command) {
                Some(c) => {
                    if any_rule_in(&self.settings.always_deny, c.as_slice()) {
                        let mut m = chars_of(
                            "command matches an always-deny rule and was blocked: ",
                        );
                        append(&mut m, c.as_slice());
                        return GateStep::Decided(CheckOutcome::Denied(string_from(m.as_slice())));
                    }
                    if any_rule_in(&self.settings.always_allow, c.as_slice()) {
                        return GateStep::Decided(CheckOutcome::Allowed);
                    }
                },
                None => {},
            }
        }
        match self.tier {
            PermissionTier::FullAuto => {
                return GateStep::Decided(CheckOutcome::Allowed);
            },
            PermissionTier::AutoAcceptEdits => {
                if kind == ToolKind::Edit {
                    return GateStep::Decided(CheckOutcome::Allowed);
                }
            },
            PermissionTier::Ask => {},
        }
        let key = key_for(tool.as_slice(), args);
        if self.is_approved(key.as_slice()) {
            return GateStep::Decided(CheckOutcome::Allowed);
        }
        let description = describe_call(tool.as_slice(), args);
        GateStep::Ask {
            key: string_from(key.as_slice()),
            request: PermissionRequest {
                tool_name: tool_name.to_owned(),
                description: string_from(description.as_slice()),
                command_preview: copy_opt(&args.command),
            },
        }
    }

    /// Ends a check with the user's decision about the call recorded under
    /// `key`: a session-long approval is remembered, a denial carries the
    /// user's feedback.
    pub fn record_decision(&mut self, key: String, decision: PermissionDecision) -> (r:
        CheckOutcome)
        ensures
            final(self).tier == old(self).tier,
            final(self).settings == old(self).settings,
            decision is AllowAlwaysThisSession ==> forall|k: Seq<char>|
                #[trigger] final(self).approved().contains(k) <==> (old(self).approved().contains(
                    k,
                ) || k == key@),
            !(decision is AllowAlwaysThisSession) ==> final(self).approved() == old(
                self,
            ).approved(),
            decision matches PermissionDecision::Deny { feedback } ==> r matches CheckOutcome::Denied(
                m,
            ) && m@ == feedback@,
            !(decision is Deny) ==> r matches CheckOutcome::Allowed,
    {
        match decision {
            PermissionDecision::Allow => CheckOutcome::Allowed,
            PermissionDecision::AllowAlwaysThisSession => {
                let k = chars_of(key.as_str());
                if !self.is_approved(k.as_slice()) {
                    let ghost before = self.approved();
                    self.session_allow.push(key);
                    assert(self.approved() =~= before.push(k@));
                    assert forall|x: Seq<char>| #[trigger]
                        self.approved().contains(x) <==> (before.contains(x) || x == k@) by {
                        if self.approved().contains(x) && x != k@ {
                            let j = choose|j: int|
                                0 <= j < self.approved().len() && self.approved()[j] == x;
                            assert(before[j] == x);
                        }
                        if before.contains(x) {
                            let j = choose|j: int| 0 <= j < before.len() && before[j] == x;
                            assert(self.approved()[j] == x);
                        }
                        if x == k@ {
                            assert(self.approved()[before.len() as int] == x);
                        }
                    }
                }
                CheckOutcome::Allowed
            },
            PermissionDecision::Deny { feedback } => CheckOutcome::Denied(feedback),
        }
    }
}

/// Read-only tools are allowed at once, whatever the tier and the rules.
pub proof fn read_only_always_allowed(
    tier: PermissionTier,
    allow: Seq<Seq<char>>,
    deny: Seq<Seq<char>>,
    tool: Seq<char>,
    command: Option<Seq<char>>,
)
    requires
        tool_kind(tool) == ToolKind::ReadOnly,
    ensures
        early_decision(tier, allow, deny, tool, command) == Early::Allow,
{
}

/// A shell command matching a deny rule is blocked whatever the tier, and
/// even when it also matches an allow rule.
pub proof fn deny_rule_blocks_whatever_the_tier(
    tier: PermissionTier,
    allow: Seq<Seq<char>>,
    deny: Seq<Seq<char>>,
    command: Seq<char>,
)
    requires
        any_rule_matches(deny, command),
    ensures
        early_decision(tier, allow, deny, "bash"@, Some(command)) == Early::DenyRule,
{
    reveal_strlit("bash");
    reveal_strlit("read_file");
    reveal_strlit("grep");
    reveal_strlit("glob");
    assert("bash"@.len() == 4 && "read_file"@.len() == 9);
    assert("bash"@[1] != "grep"@[1] && "bash"@[1] != "glob"@[1]);
}

/// At `FullAuto` the user is never asked.
pub proof fn full_auto_never_asks(
    allow: Seq<Seq<char>>,
    deny: Seq<Seq<char>>,
    tool: Seq<char>,
    command: Option<Seq<char>>,
)
    ensures
        early_decision(PermissionTier::FullAuto, allow, deny, tool, command) != Early::Tier,
{
}

/// At `AutoAcceptEdits` a shell command that matches no rule is still asked
/// about, while an edit is not.
pub proof fn auto_accept_edits_asks_only_for_commands(
    allow: Seq<Seq<char>>,
    deny: Seq<Seq<char>>,
    tool: Seq<char>,
    command: Option<Seq<char>>,
)
    requires
        tool_kind(tool) != ToolKind::ReadOnly,
        command matches Some(c) ==> !any_rule_matches(deny, c) && !any_rule_matches(allow, c),
    ensures
        early_decision(PermissionTier::AutoAcceptEdits, allow, deny, tool, command) == (if tool_kind(
            tool,
        ) == ToolKind::Bash {
            Early::Tier
        } else {
            Early::Allow
        }),
{
}

/// A session approval covers only its own command: two shell commands share
/// a session key only when they are the same command.
pub proof fn session_key_separates_commands(
    tool1: Seq<char>,
    c1: Seq<char>,
    tool2: Seq<char>,
    c2: Seq<char>,
    p1: Option<Seq<char>>,
    p2: Option<Seq<char>>,
)
    requires
        session_key(tool1, Some(c1), p1) == session_key(tool2, Some(c2), p2),
    ensures
        c1 == c2,
{
    let k = session_key(tool1, Some(c1), p1);
    assert(c1 =~= k.skip("bash:"@.len() as int));
    assert(c2 =~= k.skip("bash:"@.len() as int));
}

} // verus!
