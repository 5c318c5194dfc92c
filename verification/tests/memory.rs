use local_code::memory::paths::MemoryPaths;

#[test]
fn resolves_fixed_file_names_under_the_memory_dir() {
    let dir = "/project/.local-code/memory";
    let paths = MemoryPaths::new(dir);
    assert_eq!(paths.dir, dir);
    assert_eq!(paths.buffer, "/project/.local-code/memory/now.md");
    assert_eq!(paths.recent, "/project/.local-code/memory/recent.md");
    assert_eq!(paths.archive, "/project/.local-code/memory/archive.md");
    assert_eq!(paths.core_memories, "/project/.local-code/memory/core-memories.md");
}

use chrono::Datelike;
use local_code::memory::buffer::{buffer_header, memory_entry, rollover};
use local_code::memory::rollup::{daily_file_date, plan_rollup, DailyFile};
use local_code::memory::search::{files_to_search, search};

fn day(y: i32, m: u32, d: u32) -> i32 {
    chrono::NaiveDate::from_ymd_opt(y, m, d).unwrap().num_days_from_ce()
}

#[test]
fn daily_path_is_named_by_iso_date() {
    let paths = MemoryPaths::new("/project/.local-code/memory");
    assert_eq!(
        paths.daily("2026-07-06"),
        "/project/.local-code/memory/today-2026-07-06.md"
    );
}

#[test]
fn finds_case_insensitive_matches_in_buffer() {
    let files = vec![(
        "memory/now.md".to_string(),
        "<!-- buffer-date: 2026-07-06 -->\n\n## 09:00:00Z\nFixed the Flaky test.\n".to_string(),
    )];
    let hits = search(&files, "flaky");
    assert_eq!(hits.len(), 1);
    assert_eq!(hits[0].line, "Fixed the Flaky test.");
    assert!(hits[0].file.ends_with("now.md"));
}

#[test]
fn finds_matches_across_daily_recent_and_archive_files() {
    let names = vec!["today-2026-07-05.md".to_string(), "core-memories.md".to_string()];
    let order = files_to_search("memory", false, &names, true, true);
    assert_eq!(
        order,
        vec![
            "memory/today-2026-07-05.md".to_string(),
            "memory/recent.md".to_string(),
            "memory/archive.md".to_string()
        ]
    );
    let files = vec![
        (order[0].clone(), "## 09:00:00Z\nDaily file mentions widgets.\n".to_string()),
        (order[1].clone(), "# 2026-07-06\n\n## 09:00:00Z\nRecent file mentions widgets too.\n".to_string()),
        (order[2].clone(), "# 2026-06-01\n\n## 09:00:00Z\nArchived widgets note.\n".to_string()),
    ];
    let hits = search(&files, "widgets");
    assert_eq!(hits.len(), 3);
}

#[test]
fn does_not_search_core_memories_file() {
    let order = files_to_search("memory", false, &vec!["core-memories.md".to_string()], false, false);
    assert!(order.is_empty());
    let hits = search(&[], "unwrap");
    assert!(hits.is_empty());
}

#[test]
fn returns_empty_when_memory_dir_does_not_exist() {
    let order = files_to_search("does-not-exist", false, &vec![], false, false);
    assert!(order.is_empty());
    assert!(search(&[], "anything").is_empty());
}

#[test]
fn line_numbers_are_one_indexed() {
    let files = vec![(
        "memory/now.md".to_string(),
        "line one\nline two matches HERE\nline three\n".to_string(),
    )];
    let hits = search(&files, "here");
    assert_eq!(hits.len(), 1);
    assert_eq!(hits[0].line_number, 2);
}

#[test]
fn daily_files_are_searched_in_date_order() {
    let names = vec![
        "today-2026-07-05.md".to_string(),
        "today-2026-07-01.md".to_string(),
        "notes.txt".to_string(),
    ];
    let order = files_to_search("m", true, &names, false, false);
    assert_eq!(
        order,
        vec![
            "m/now.md".to_string(),
            "m/today-2026-07-01.md".to_string(),
            "m/today-2026-07-05.md".to_string()
        ]
    );
}

#[test]
fn maybe_rollover_is_noop_when_buffer_matches_today() {
    let buffer = format!("{}{}", buffer_header("2026-07-06"), memory_entry("09:00:00Z", "Same-day entry."));
    assert!(rollover(&buffer, day(2026, 7, 6)).is_none());
}

#[test]
fn maybe_rollover_is_noop_when_buffer_missing() {
    assert!(rollover("", day(2026, 7, 6)).is_none());
}

#[test]
fn an_older_buffer_rolls_into_its_day() {
    let buffer = format!("{}{}", buffer_header("2026-07-05"), memory_entry("09:00:00Z", "Yesterday."));
    let r = rollover(&buffer, day(2026, 7, 6)).unwrap();
    assert_eq!(r.day, day(2026, 7, 5));
    assert_eq!(r.date_text, "2026-07-05");
    assert_eq!(r.body, "\n## 09:00:00Z\nYesterday.\n\n");
    assert!(rollover("<!-- buffer-date: not-a-date -->\n", day(2026, 7, 6)).is_none());
}

#[test]
fn daily_file_names_carry_their_date() {
    assert_eq!(
        daily_file_date("today-2026-07-05.md"),
        Some((day(2026, 7, 5), "2026-07-05".to_string()))
    );
    assert_eq!(daily_file_date("today-2026-13-05.md"), None);
    assert_eq!(daily_file_date("recent.md"), None);
}

fn daily(y: i32, m: u32, d: u32, text: &str) -> DailyFile {
    let date_text = format!("{y:04}-{m:02}-{d:02}");
    DailyFile {
        day: day(y, m, d),
        path: format!("m/today-{date_text}.md"),
        date_text,
        contents: text.to_string(),
    }
}

#[test]
fn rollup_keeps_a_week_recent_and_archives_the_rest() {
    let today = day(2026, 7, 10);
    let plan = plan_rollup(
        today,
        vec![daily(2026, 7, 9, "nine"), daily(2026, 7, 1, "one"), daily(2026, 7, 4, "four")],
    );
    assert_eq!(plan.archive_text, "# 2026-07-01\n\none\n");
    assert_eq!(plan.archived_paths, vec!["m/today-2026-07-01.md".to_string()]);
    assert_eq!(plan.recent_text, "# 2026-07-04\n\nfour\n# 2026-07-09\n\nnine\n");
}

#[test]
fn memory_dir_lies_under_the_project_config_dir() {
    let paths = local_code::config::paths::Paths::from_dirs("/cfg", None, "/data", "/proj");
    assert_eq!(local_code::cli::memory::memory_dir(&paths), "/proj/.local-code/memory");
}

#[test]
fn running_rollup_twice_does_not_duplicate_archive_content() {
    let today = day(2026, 7, 10);
    let files = || vec![daily(2026, 7, 9, "nine"), daily(2026, 6, 1, "Too old."), daily(2026, 7, 4, "four")];
    let first = plan_rollup(today, files());
    assert_eq!(first.archive_text, "# 2026-06-01\n\nToo old.\n");
    let left: Vec<DailyFile> = files()
        .into_iter()
        .filter(|f| !first.archived_paths.contains(&f.path))
        .collect();
    let second = plan_rollup(today, left);
    assert_eq!(second.archive_text, "");
    assert!(second.archived_paths.is_empty());
    assert_eq!(second.recent_text, first.recent_text);
}
