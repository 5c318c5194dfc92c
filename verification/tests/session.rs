use local_code::session::paths::{project_slug, session_dir_for_project};

#[test]
fn same_project_root_yields_the_same_slug() {
    let a = project_slug("/home/user/myproject");
    let b = project_slug("/home/user/myproject");
    assert_eq!(a, b);
}

#[test]
fn different_project_roots_yield_different_slugs() {
    let a = project_slug("/home/user/project-a");
    let b = project_slug("/home/user/project-b");
    assert_ne!(a, b);
}

#[test]
fn slug_contains_only_filesystem_safe_characters() {
    let slug = project_slug("/home/user/my project (v2)");
    assert!(slug
        .chars()
        .all(|c| c.is_ascii_alphanumeric() || c == '_' || c == '-'));
}

#[test]
fn session_dir_is_nested_under_sessions_and_the_project_slug() {
    let dir = session_dir_for_project("/state", "/home/user/myproject");
    assert!(dir.starts_with("/state/sessions/"));
    assert!(dir.ends_with(&format!("/{}", project_slug("/home/user/myproject"))));
}

use local_code::session::store::{
    check_version, is_session_file, list_sessions, preview, ListedFile, SessionLoadError,
    StoredSession, SESSION_FILE_VERSION,
};

fn stored(connection: &str, updated_at: &str, entries: usize, first: Option<&str>) -> StoredSession {
    StoredSession {
        version: SESSION_FILE_VERSION,
        connection_name: connection.into(),
        model_name: "model".into(),
        updated_at: updated_at.into(),
        entry_count: entries,
        first_user_turn: first.map(|s| s.to_string()),
    }
}

#[test]
fn load_rejects_unsupported_version() {
    assert_eq!(check_version(SESSION_FILE_VERSION), Ok(()));
    assert_eq!(
        check_version(999),
        Err(SessionLoadError::UnsupportedVersion { found: 999, expected: 1 })
    );
}

#[test]
fn list_sessions_returns_empty_when_no_directory_exists() {
    assert!(list_sessions(&[]).is_empty());
}

#[test]
fn list_sessions_sorts_most_recently_updated_first_and_skips_corrupt_files() {
    let files = vec![
        ListedFile { path: "d/a.json".into(), session: Some(stored("older", "2026-07-01T00:00:00Z", 1, Some("hello"))) },
        ListedFile { path: "d/b.json".into(), session: Some(stored("newer", "2026-07-06T00:00:00Z", 1, Some("hello"))) },
        ListedFile { path: "d/corrupt.json".into(), session: None },
    ];
    let sessions = list_sessions(&files);
    assert_eq!(sessions.len(), 2);
    assert_eq!(sessions[0].connection_name, "newer");
    assert_eq!(sessions[1].connection_name, "older");
}

#[test]
fn list_sessions_skips_sessions_with_no_entries() {
    let files = vec![
        ListedFile { path: "d/empty.json".into(), session: Some(stored("untouched-tab", "2026-07-06T00:00:00Z", 0, None)) },
        ListedFile { path: "d/used.json".into(), session: Some(stored("used", "2026-07-05T00:00:00Z", 1, Some("hi"))) },
    ];
    let sessions = list_sessions(&files);
    assert_eq!(sessions.len(), 1, "the never-used session is hidden");
    assert_eq!(sessions[0].connection_name, "used");
}

#[test]
fn list_sessions_extracts_first_user_turn_preview() {
    let files = vec![ListedFile {
        path: "d/s.json".into(),
        session: Some(stored("conn", "2026-07-06T00:00:00Z", 1, Some("fix the flaky test"))),
    }];
    let sessions = list_sessions(&files);
    assert_eq!(sessions[0].first_user_turn_preview.as_deref(), Some("fix the flaky test"));
    assert_eq!(sessions[0].path, "d/s.json");
}

#[test]
fn listing_skips_other_files_and_other_versions() {
    let mut old = stored("old", "2026-07-06T00:00:00Z", 3, None);
    old.version = 0;
    let files = vec![
        ListedFile { path: "d/notes.txt".into(), session: Some(stored("txt", "2026-07-06T00:00:00Z", 1, None)) },
        ListedFile { path: "d/.json".into(), session: Some(stored("dot", "2026-07-06T00:00:00Z", 1, None)) },
        ListedFile { path: "d/old.json".into(), session: Some(old) },
    ];
    assert!(list_sessions(&files).is_empty());
    assert!(is_session_file("/x/y/z.json"));
    assert!(!is_session_file("/x/y/.json"));
    assert!(!is_session_file("/x/y.json/z"));
}

#[test]
fn previews_are_cut_to_sixty_characters() {
    let long = "é".repeat(70);
    assert_eq!(preview(&long).chars().count(), 60);
    assert_eq!(preview("short"), "short");
}

#[test]
fn new_session_path_avoids_colliding_with_an_existing_file() {
    let dir = local_code::session::paths::session_dir_for_project("/state", "/home/user/myproject");
    let first = local_code::session::paths::session_path_candidate(&dir, "20260706T100000Z", 0);
    let second = local_code::session::paths::session_path_candidate(&dir, "20260706T100000Z", 1);
    assert!(first.ends_with("/20260706T100000Z.json"));
    assert_ne!(first, second);
    assert!(second.ends_with("20260706T100000Z-1.json"));
    assert!(first.starts_with("/state/sessions/"));
}
