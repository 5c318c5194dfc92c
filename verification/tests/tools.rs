use local_code::agent::builder::system_prompt;
use local_code::agent::effort::{parse_effort, ReasoningEffort};
use local_code::agent::skill_tool::SkillTool;
use local_code::agent::tools::{
    command_report, grep, grep_report, read_refusal, replace_unique, EditRefusal, GrepFile,
    MAX_READ_FILE_BYTES,
};
use local_code::skills::types::{LoadMode, Scope, Skill};

fn skill(name: &str, mode: LoadMode) -> Skill {
    Skill {
        name: name.into(),
        description: format!("{name} skill"),
        scope: Scope::Project,
        dir: format!("/skills/{name}"),
        body: format!("body of {name}"),
        load_mode: mode,
    }
}

#[test]
fn effort_names_are_the_lowercase_wire_values() {
    assert_eq!(ReasoningEffort::High.as_str(), "high");
    assert_eq!(ReasoningEffort::Medium.to_string(), "medium");
    assert_eq!(
        parse_effort("extreme"),
        Err("unknown effort level 'extreme' (expected low, medium, or high)".to_string())
    );
}

#[test]
fn read_file_refuses_only_files_over_the_limit() {
    assert_eq!(read_refusal("small.txt", MAX_READ_FILE_BYTES), None);
    assert_eq!(MAX_READ_FILE_BYTES, 2 * 1024 * 1024);
    let msg = read_refusal("big.txt", MAX_READ_FILE_BYTES + 1).unwrap();
    assert_eq!(
        msg,
        "big.txt is 2097153 bytes, which exceeds the 2097152-byte read_file limit; use grep to search it or bash (e.g. head/tail) to inspect it in parts instead"
    );
}

#[test]
fn edit_replaces_a_unique_match() {
    let updated = replace_unique("fn main() { println!(\"old\"); }", "old", "new").unwrap();
    assert_eq!(updated, "fn main() { println!(\"new\"); }");
}

#[test]
fn edit_rejects_ambiguous_and_missing_matches() {
    assert_eq!(replace_unique("a a a", "a", "b"), Err(EditRefusal::Ambiguous(3)));
    assert_eq!(replace_unique("content", "not present", "x"), Err(EditRefusal::NotFound));
    assert_eq!(
        EditRefusal::Ambiguous(3).message("code.rs"),
        "find text is ambiguous in code.rs: occurs 3 times, expected exactly 1"
    );
    assert_eq!(
        EditRefusal::NotFound.message("code.rs"),
        "find text not found in code.rs"
    );
}

#[test]
fn edit_counts_non_overlapping_occurrences() {
    assert_eq!(replace_unique("aaa", "aa", "b"), Ok("ba".to_string()));
    assert_eq!(replace_unique("aaaa", "aa", "b"), Err(EditRefusal::Ambiguous(2)));
    assert_eq!(replace_unique("", "", "x"), Ok("x".to_string()));
    assert_eq!(replace_unique("ab", "", "x"), Err(EditRefusal::Ambiguous(3)));
    assert_eq!(replace_unique("héllo wörld", "wörld", "welt"), Ok("héllo welt".to_string()));
}

#[test]
fn command_report_shows_the_exit_code_and_both_streams() {
    let ok = command_report(Some(0), true, "hello_from_bash_tool\n", "");
    assert!(!ok.is_error);
    assert_eq!(ok.content, "exit code: 0\nhello_from_bash_tool\n");
    let failed = command_report(Some(3), false, "", "boom\n");
    assert!(failed.is_error);
    assert_eq!(failed.content, "exit code: 3\nboom\n");
    let killed = command_report(None, false, "out", "err");
    assert_eq!(killed.content, "exit code: -1\nouterr");
}

#[test]
fn grep_finds_matching_lines_with_their_numbers() {
    let files = vec![
        GrepFile {
            path: "dir/a.txt".into(),
            size: 20,
            contents: Some("hello world\nfoo bar\n".into()),
        },
        GrepFile { path: "dir/b.txt".into(), size: 13, contents: Some("nothing here\n".into()) },
    ];
    let reply = grep("hel+o", &files);
    assert!(!reply.is_error);
    assert_eq!(reply.content, "dir/a.txt:1: hello world");
    let reply = grep("o", &files);
    assert_eq!(reply.content, "dir/a.txt:1: hello world\ndir/a.txt:2: foo bar\ndir/b.txt:1: nothing here");
}

#[test]
fn grep_skips_large_and_unreadable_files() {
    let files = vec![
        GrepFile {
            path: "big.txt".into(),
            size: MAX_READ_FILE_BYTES + 1,
            contents: Some("needle".into()),
        },
        GrepFile { path: "binary.bin".into(), size: 3, contents: None },
    ];
    let reply = grep("needle", &files);
    assert!(!reply.is_error);
    assert_eq!(reply.content, "no matches found");
}

#[test]
fn grep_reports_an_invalid_pattern() {
    let reply = grep("(unclosed", &[]);
    assert!(reply.is_error);
    assert!(reply.content.starts_with("invalid regex '(unclosed': "));
}

#[test]
fn grep_report_keeps_the_first_two_hundred_matches() {
    let matches: Vec<String> = (0..250).map(|i| format!("m{i}")).collect();
    let text = grep_report(&matches);
    assert_eq!(text.lines().count(), 200);
    assert!(text.starts_with("m0\nm1\n"));
    assert!(text.ends_with("\nm199"));
    assert_eq!(grep_report(&Vec::new()), "no matches found");
}

#[test]
fn system_prompt_appends_extra_context_unless_blank() {
    let base = system_prompt("   \n");
    assert!(base.starts_with("You are local-code, a coding assistant"));
    assert!(base.ends_with("runs a command."));
    let with = system_prompt("## Project AGENTS.md\n\nrun tests");
    assert_eq!(with, format!("{base}\n\n## Project AGENTS.md\n\nrun tests"));
}

#[test]
fn skill_tool_offers_only_model_invoked_skills() {
    let tool = SkillTool::new(vec![
        skill("pdf", LoadMode::ModelInvoked),
        skill("always", LoadMode::AlwaysApply),
        skill("docs", LoadMode::ModelInvoked),
    ]);
    assert_eq!(tool.invoke(Some("pdf")), Ok("body of pdf".to_string()));
    assert_eq!(
        tool.invoke(Some("always")),
        Err("no skill named 'always' is available. Available skills: pdf, docs".to_string())
    );
    assert_eq!(
        tool.invoke(None),
        Err("missing required 'name' argument".to_string())
    );
}
