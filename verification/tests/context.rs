use local_code::config::paths::Paths;
use local_code::context::{context_sources, project_context};

fn names() -> Vec<String> {
    vec!["AGENTS.md".to_string(), "GUIDE.md".to_string()]
}

#[test]
fn returns_empty_string_when_no_context_files_exist() {
    let read = vec![
        ("Project AGENTS.md".to_string(), None),
        ("User-level AGENTS.md".to_string(), None),
    ];
    assert!(project_context(&read).is_empty());
}

#[test]
fn loads_project_agents_md_when_present() {
    let read = vec![("Project AGENTS.md".to_string(), Some("Always run tests before committing.".to_string()))];
    let context = project_context(&read);
    assert_eq!(context, "## Project AGENTS.md\n\nAlways run tests before committing.");
}

#[test]
fn blank_file_is_treated_as_absent() {
    let read = vec![
        ("Project AGENTS.md".to_string(), Some("   \n  ".to_string())),
        ("User-level AGENTS.md".to_string(), Some("user agents".to_string())),
    ];
    assert_eq!(project_context(&read), "## User-level AGENTS.md\n\nuser agents");
}

#[test]
fn sources_list_project_files_then_user_files() {
    let paths = Paths::from_dirs("/cfg", None, "/data", "/proj");
    let sources = context_sources(&paths, "/proj", &names());
    let pairs: Vec<_> = sources.iter().map(|s| (s.path.as_str(), s.label.as_str())).collect();
    assert_eq!(
        pairs,
        vec![
            ("/proj/AGENTS.md", "Project AGENTS.md"),
            ("/proj/GUIDE.md", "Project GUIDE.md"),
            ("/cfg/AGENTS.md", "User-level AGENTS.md"),
            ("/cfg/GUIDE.md", "User-level GUIDE.md"),
        ]
    );
    let read = vec![
        ("Project AGENTS.md".to_string(), Some("project agents".to_string())),
        ("Project GUIDE.md".to_string(), Some("project guide".to_string())),
        ("User-level AGENTS.md".to_string(), Some("user agents".to_string())),
    ];
    assert_eq!(
        project_context(&read),
        "## Project AGENTS.md\n\nproject agents\n\n## Project GUIDE.md\n\nproject guide\n\n## User-level AGENTS.md\n\nuser agents"
    );
}
