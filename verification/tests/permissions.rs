use local_code::permissions::types::{classify_tool, ToolKind};

#[test]
fn read_only_tools_classify_as_read_only() {
    assert_eq!(classify_tool("read_file"), ToolKind::ReadOnly);
    assert_eq!(classify_tool("grep"), ToolKind::ReadOnly);
    assert_eq!(classify_tool("glob"), ToolKind::ReadOnly);
}

#[test]
fn write_tools_classify_as_edit() {
    assert_eq!(classify_tool("write_file"), ToolKind::Edit);
    assert_eq!(classify_tool("edit_file"), ToolKind::Edit);
}

#[test]
fn bash_classifies_as_bash() {
    assert_eq!(classify_tool("bash"), ToolKind::Bash);
}

#[test]
fn unknown_tool_defaults_to_edit() {
    assert_eq!(classify_tool("some_future_mcp_tool"), ToolKind::Edit);
}

#[test]
fn namespaced_mcp_tool_names_default_to_edit_not_read_only() {
    assert_eq!(classify_tool("filesystem__write_file"), ToolKind::Edit);
    assert_eq!(classify_tool("filesystem__read_file"), ToolKind::Edit);
    assert_eq!(
        classify_tool("some_remote_server__delete_everything"),
        ToolKind::Edit
    );
}

use local_code::permissions::gate::{CallArgs, CheckOutcome, GateState, GateStep};
use local_code::permissions::settings::PermissionSettings;
use local_code::permissions::stdio::{choice, feedback_question, question, refusal, unreadable_answer};
use local_code::permissions::types::{PermissionDecision, PermissionRequest, PermissionTier};

fn rules(allow: &[&str], deny: &[&str]) -> PermissionSettings {
    PermissionSettings {
        always_allow: allow.iter().map(|s| s.to_string()).collect(),
        always_deny: deny.iter().map(|s| s.to_string()).collect(),
    }
}

fn bash(cmd: &str) -> CallArgs {
    CallArgs { command: Some(cmd.into()), path: None }
}

fn write(path: &str) -> CallArgs {
    CallArgs { command: None, path: Some(path.into()) }
}

#[test]
fn read_only_calls_run_at_once_in_every_tier() {
    for tier in [PermissionTier::Ask, PermissionTier::AutoAcceptEdits, PermissionTier::FullAuto] {
        let gate = GateState::new(tier, rules(&[], &["cat"]));
        assert!(matches!(
            gate.check("read_file", &write("x")),
            GateStep::Decided(CheckOutcome::Allowed)
        ));
    }
}

#[test]
fn deny_rules_block_commands_even_in_full_auto() {
    let gate = GateState::new(PermissionTier::FullAuto, rules(&["rm"], &["rm -rf"]));
    match gate.check("bash", &bash("sudo rm -rf /")) {
        GateStep::Decided(CheckOutcome::Denied(m)) => {
            assert_eq!(m, "command matches an always-deny rule and was blocked: sudo rm -rf /")
        }
        other => panic!("unexpected {other:?}"),
    }
}

#[test]
fn allow_rules_and_tiers_decide_the_rest() {
    let gate = GateState::new(PermissionTier::Ask, rules(&["cargo test"], &[]));
    assert!(matches!(
        gate.check("bash", &bash("cargo test --all")),
        GateStep::Decided(CheckOutcome::Allowed)
    ));
    let edits = GateState::new(PermissionTier::AutoAcceptEdits, rules(&[], &[]));
    assert!(matches!(edits.check("write_file", &write("a.rs")), GateStep::Decided(CheckOutcome::Allowed)));
    assert!(matches!(edits.check("bash", &bash("ls")), GateStep::Ask { .. }));
    let auto = GateState::new(PermissionTier::FullAuto, rules(&[], &[]));
    assert!(matches!(auto.check("bash", &bash("ls")), GateStep::Decided(CheckOutcome::Allowed)));
}

#[test]
fn ask_steps_describe_the_call_and_remember_session_approvals() {
    let mut gate = GateState::new(PermissionTier::Ask, rules(&[], &[]));
    let (key, request) = match gate.check("bash", &bash("make")) {
        GateStep::Ask { key, request } => (key, request),
        other => panic!("unexpected {other:?}"),
    };
    assert_eq!(key, "bash:make");
    assert_eq!(request.description, "run shell command: make");
    assert_eq!(request.command_preview.as_deref(), Some("make"));
    assert_eq!(
        gate.record_decision(key.clone(), PermissionDecision::AllowAlwaysThisSession),
        CheckOutcome::Allowed
    );
    assert!(matches!(gate.check("bash", &bash("make")), GateStep::Decided(CheckOutcome::Allowed)));
    assert!(matches!(gate.check("bash", &bash("make install")), GateStep::Ask { .. }));
    match gate.check("edit_file", &write("src/x.rs")) {
        GateStep::Ask { key, request } => {
            assert_eq!(key, "edit_file:src/x.rs");
            assert_eq!(request.description, "edit file: src/x.rs");
        }
        other => panic!("unexpected {other:?}"),
    }
    match gate.check("fs__delete", &CallArgs { command: None, path: None }) {
        GateStep::Ask { request, .. } => assert_eq!(request.description, "call tool 'fs__delete'"),
        other => panic!("unexpected {other:?}"),
    }
}

#[test]
fn a_refusal_passes_the_feedback_back() {
    let mut gate = GateState::new(PermissionTier::Ask, rules(&[], &[]));
    assert_eq!(
        gate.record_decision("bash:x".into(), PermissionDecision::Deny { feedback: "use y".into() }),
        CheckOutcome::Denied("use y".into())
    );
    assert_eq!(gate.record_decision("bash:x".into(), PermissionDecision::Allow), CheckOutcome::Allowed);
    assert!(matches!(gate.check("bash", &bash("x")), GateStep::Ask { .. }));
}

#[test]
fn stdio_prompt_offers_three_choices() {
    let request = PermissionRequest {
        tool_name: "bash".into(),
        description: "run shell command: rm file.txt".into(),
        command_preview: Some("rm file.txt".into()),
    };
    assert_eq!(
        question(&request),
        "\nPermission requested: run shell command: rm file.txt\n  1) Yes\n  2) Yes, don't ask again this session\n  3) No (provide feedback)\n> "
    );
    assert_eq!(choice("1\n"), Some(PermissionDecision::Allow));
    assert_eq!(choice(" 2 "), Some(PermissionDecision::AllowAlwaysThisSession));
    assert_eq!(choice("3\n"), None);
    assert_eq!(choice("yes"), None);
    assert_eq!(feedback_question(), "Feedback (why not / what to do instead): ");
    assert_eq!(
        refusal("  use git rm instead\n"),
        PermissionDecision::Deny { feedback: "use git rm instead".into() }
    );
    assert_eq!(
        unreadable_answer(),
        PermissionDecision::Deny { feedback: "failed to read permission response".into() }
    );
}
