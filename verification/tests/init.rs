use local_code::init::prompt::{build_init_prompt, MAX_PATHS_IN_PROMPT};
use local_code::init::survey::ProjectSurvey;

#[test]
fn discloses_truncation_when_total_files_seen_exceeds_the_listed_sample() {
    let survey = ProjectSurvey {
        file_paths: vec!["a.rs".into(), "b.rs".into()],
        manifests: vec![],
        total_files_seen: 10_000,
    };
    let prompt = build_init_prompt(&survey);
    assert!(prompt.contains("Project contains 10000 files"));
    assert!(prompt.contains("showing a sample of the first 2"));
}

#[test]
fn disclosed_sample_size_matches_the_paths_actually_emitted() {
    let survey = ProjectSurvey {
        file_paths: (0..500).map(|i| format!("src/file_{i}.rs")).collect(),
        manifests: vec![],
        total_files_seen: 10_000,
    };
    let prompt = build_init_prompt(&survey);
    let emitted = prompt.lines().filter(|line| line.starts_with("- ")).count();
    assert_eq!(emitted, MAX_PATHS_IN_PROMPT);
    assert!(prompt.contains(&format!(
        "showing a sample of the first {MAX_PATHS_IN_PROMPT}"
    )));
    assert!(prompt.contains("- src/file_199.rs"));
    assert!(!prompt.contains("- src/file_200.rs"));
}

#[test]
fn does_not_mention_truncation_when_nothing_was_dropped() {
    let survey = ProjectSurvey {
        file_paths: vec!["a.rs".into(), "b.rs".into()],
        manifests: vec![],
        total_files_seen: 2,
    };
    let prompt = build_init_prompt(&survey);
    assert!(prompt.contains("Project contains 2 files"));
    assert!(!prompt.contains("showing a sample"));
}

use local_code::init::generate::{accept_generated, init_system_prompt, GenerateRefusal};
use local_code::init::survey::is_manifest;

#[test]
fn includes_manifest_contents_when_present() {
    let survey = ProjectSurvey {
        file_paths: vec!["Cargo.toml".into(), "src/main.rs".into()],
        manifests: vec![("Cargo.toml".into(), "[package]\nname = \"local-code\"".into())],
        ..Default::default()
    };
    let prompt = build_init_prompt(&survey);
    assert!(prompt.contains("Cargo.toml"));
    assert!(prompt.contains("name = \"local-code\""));
    assert!(prompt.contains("src/main.rs"));
}

#[test]
fn handles_a_survey_with_no_manifests() {
    let survey = ProjectSurvey {
        file_paths: vec!["README.md".into()],
        manifests: vec![],
        ..Default::default()
    };
    let prompt = build_init_prompt(&survey);
    assert!(prompt.contains("README.md"));
    assert!(!prompt.contains("Detected build manifests"));
}

#[test]
fn truncates_very_long_manifest_contents() {
    let long_content = "x".repeat(5000);
    let survey = ProjectSurvey {
        file_paths: vec![],
        manifests: vec![("Cargo.toml".into(), long_content)],
        ..Default::default()
    };
    let prompt = build_init_prompt(&survey);
    assert!(prompt.len() < 5000 + 1000);
    assert!(prompt.contains(&"x".repeat(2000)));
    assert!(!prompt.contains(&"x".repeat(2001)));
}

#[test]
fn surveys_keep_five_hundred_paths_and_count_every_file() {
    let mut survey = ProjectSurvey::default();
    for i in 0..600 {
        survey.record_file(format!("f{i}.rs"));
    }
    survey.record_manifest("Cargo.toml".into(), "[package]".into());
    assert_eq!(survey.file_paths.len(), 500);
    assert_eq!(survey.file_paths[499], "f499.rs");
    assert_eq!(survey.total_files_seen, 600);
    assert_eq!(survey.manifests.len(), 1);
    assert!(is_manifest("sub/dir/package.json"));
    assert!(is_manifest("Cargo.toml"));
    assert!(!is_manifest("Cargo.toml.bak"));
}

#[test]
fn blank_generated_text_is_refused() {
    assert_eq!(accept_generated("  \n".into()), Err(GenerateRefusal::EmptyResponse));
    assert_eq!(accept_generated("# AGENTS.md\n".into()), Ok("# AGENTS.md\n".to_string()));
    assert_eq!(
        GenerateRefusal::EmptyResponse.message(),
        "model returned an empty response; AGENTS.md left unchanged"
    );
    assert!(init_system_prompt().starts_with("You are generating an AGENTS.md file"));
}
