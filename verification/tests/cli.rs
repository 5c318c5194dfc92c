use local_code::cli::skills_update::{check_skills_update, plan_skills_update, skills_update_report, ManifestRead};
use local_code::skills::types::{InstalledSkillManifest, PluginProvenance};
use local_code::cli::connections::{self, ConnectionAnswers};
use local_code::cli::marketplace;
use local_code::cli::mcp::{self, add_unsupported};
use local_code::cli::memory::{core_command, search_command};
use local_code::cli::plugin::{self, parse_plugin_spec, UpdateOutcome};
use local_code::cli::secret;
use local_code::cli::skills::{self, skill_client, validate_skill_name, SkillSummary};
use local_code::cli::{
    check_headless_stdin, requires_interactive_stdin, select_session_to_resume,
    PermissionModeArg,
};
use local_code::config::connection::{Connection, ProviderKind};
use local_code::config::mcp_servers::{McpServerConfig, McpTransportConfig};
use local_code::marketplace::install::{AvailablePlugin, PluginUpdateReport};
use local_code::marketplace::registry::RegisteredMarketplace;
use local_code::marketplace::source::MarketplaceSource;
use local_code::memory::buffer::memory_entry;
use local_code::memory::search::search;
use local_code::permissions::types::PermissionTier;
use local_code::session::types::SessionSummary;
use local_code::skills::types::{Host, Scope, SkillClient};

fn summary(connection: &str, updated_at: &str) -> SessionSummary {
    SessionSummary {
        path: format!("/sessions/{connection}.json"),
        connection_name: connection.into(),
        model_name: "m".into(),
        updated_at: updated_at.into(),
        first_user_turn_preview: None,
    }
}

#[test]
fn add_unsupported_explains_to_use_the_tui() {
    assert!(add_unsupported().contains("/mcp add"));
}

#[test]
fn returns_none_when_no_sessions_exist() {
    let (out, result) = select_session_to_resume(&[], "");
    assert!(result.is_none());
    assert!(out.contains("No previous sessions"));
}

#[test]
fn auto_selects_the_only_session_without_prompting() {
    let sessions = vec![summary("only-one", "2026-07-06T00:00:00Z")];
    let (_, result) = select_session_to_resume(&sessions, "");
    assert_eq!(result.unwrap().connection_name, "only-one");
}

#[test]
fn blank_input_selects_the_most_recent() {
    let sessions = vec![
        summary("newest", "2026-07-06T00:00:00Z"),
        summary("older", "2026-07-01T00:00:00Z"),
    ];
    let (_, result) = select_session_to_resume(&sessions, "\n");
    assert_eq!(result.unwrap().connection_name, "newest");
}

#[test]
fn numeric_input_selects_by_index() {
    let sessions = vec![
        summary("newest", "2026-07-06T00:00:00Z"),
        summary("older", "2026-07-01T00:00:00Z"),
    ];
    let (_, result) = select_session_to_resume(&sessions, "2\n");
    assert_eq!(result.unwrap().connection_name, "older");
}

#[test]
fn out_of_range_input_falls_back_to_most_recent() {
    let sessions = vec![
        summary("newest", "2026-07-06T00:00:00Z"),
        summary("older", "2026-07-01T00:00:00Z"),
    ];
    let (_, result) = select_session_to_resume(&sessions, "99\n");
    assert_eq!(result.unwrap().connection_name, "newest");
}

#[test]
fn permission_mode_maps_to_permission_tier() {
    assert_eq!(PermissionModeArg::Ask.into_tier(), PermissionTier::Ask);
    assert_eq!(
        PermissionModeArg::AutoAcceptEdits.into_tier(),
        PermissionTier::AutoAcceptEdits
    );
    assert_eq!(PermissionModeArg::FullAuto.into_tier(), PermissionTier::FullAuto);
}

#[test]
fn requires_interactive_stdin_true_for_ask_and_auto_accept_edits() {
    assert!(requires_interactive_stdin(Some(PermissionTier::Ask)));
    assert!(requires_interactive_stdin(Some(PermissionTier::AutoAcceptEdits)));
}

#[test]
fn requires_interactive_stdin_false_for_full_auto_and_none() {
    assert!(!requires_interactive_stdin(Some(PermissionTier::FullAuto)));
    assert!(!requires_interactive_stdin(None));
}

#[test]
fn parses_plugin_at_marketplace() {
    let (plugin, marketplace) = parse_plugin_spec("code-formatter@acme-tools").unwrap();
    assert_eq!(plugin, "code-formatter");
    assert_eq!(marketplace, "acme-tools");
}

#[test]
fn rejects_specs_without_an_at_sign_or_with_empty_parts() {
    assert!(parse_plugin_spec("code-formatter").is_err());
    assert!(parse_plugin_spec("@acme-tools").is_err());
    assert!(parse_plugin_spec("code-formatter@").is_err());
    assert!(parse_plugin_spec("a@b@c").is_err());
}

#[test]
fn validate_skill_name_rejects_traversal_shapes() {
    assert!(validate_skill_name("../escape").is_err());
    assert!(validate_skill_name("foo/../bar").is_err());
    assert!(validate_skill_name("foo/bar").is_err());
    assert!(validate_skill_name("foo\\bar").is_err());
    assert!(validate_skill_name("pdf").is_ok());
}

#[test]
fn skill_client_maps_each_host_to_its_concrete_client_variant() {
    assert!(matches!(
        skill_client(Host::GitHub, None).unwrap(),
        SkillClient::GitHub { .. }
    ));
    assert!(matches!(
        skill_client(Host::GitLab, None).unwrap(),
        SkillClient::GitLab { .. }
    ));
    assert!(matches!(
        skill_client(Host::Bitbucket, None).unwrap(),
        SkillClient::Bitbucket { .. }
    ));
}

fn conn_x() -> Connection {
    Connection {
        name: "conn-x".into(),
        provider: ProviderKind::OpenAiCompatible,
        base_url: "http://localhost:8000/v1".into(),
        default_model: "m".into(),
        models: vec![],
        effort: None,
    }
}

#[test]
fn list_reports_no_connections_when_empty() {
    assert!(connections::list(&[]).contains("No connections configured"));
}

#[test]
fn list_prints_each_connection() {
    let printed = connections::list(&[(conn_x(), true)]);
    assert!(printed.contains("conn-x"));
    assert!(printed.contains("http://localhost:8000/v1"));
    assert_eq!(
        printed,
        "conn-x  [OpenAiCompatible]  http://localhost:8000/v1  (default model: m)  [key stored]\n"
    );
}

#[test]
fn remove_deletes_matching_connection_and_its_key() {
    let existing = vec![Connection {
        name: "conn-y".into(),
        provider: ProviderKind::Ollama,
        base_url: "http://localhost:11434".into(),
        default_model: "llama3.1".into(),
        models: vec![],
        effort: None,
    }];
    let removal = connections::remove(existing, "conn-y");
    assert!(removal.remaining.is_empty());
    assert!(removal.removed);
    assert_eq!(removal.message, "Removed connection 'conn-y'.\n");
}

#[test]
fn connections_remove_reports_when_name_not_found() {
    let removal = connections::remove(vec![conn_x()], "does-not-exist");
    assert!(removal.message.contains("No connection named"));
    assert!(!removal.removed);
    assert_eq!(removal.remaining, vec![conn_x()]);
}

#[test]
fn add_writes_connection_and_key_from_transcript() {
    let answers = ConnectionAnswers {
        name: "local-vllm\n".into(),
        provider: "1\n".into(),
        base_url: "http://localhost:8000/v1\n".into(),
        default_model: "qwen2.5-coder-32b\n".into(),
        api_key: "sk-test-789\n".into(),
    };
    let added = connections::add(&answers, vec![]);
    let connection = added.connection.clone();
    assert_eq!(connection.name, "local-vllm");
    assert_eq!(connection.provider, ProviderKind::OpenAiCompatible);
    assert_eq!(connection.base_url, "http://localhost:8000/v1");
    assert_eq!(connection.default_model, "qwen2.5-coder-32b");
    assert_eq!(added.connections, vec![connection.clone()]);
    assert_eq!(added.api_key, Some("sk-test-789".to_string()));
}

#[test]
fn add_with_blank_api_key_stores_no_secret() {
    let answers = ConnectionAnswers {
        name: "home-ollama".into(),
        provider: "2".into(),
        base_url: "http://localhost:11434".into(),
        default_model: "llama3.1".into(),
        api_key: "".into(),
    };
    let added = connections::add(&answers, vec![]);
    assert_eq!(added.connection.provider, ProviderKind::Ollama);
    assert_eq!(added.api_key, None);
}

#[test]
fn adding_a_connection_replaces_one_of_the_same_name() {
    let answers = ConnectionAnswers {
        name: " conn-x ".into(),
        provider: "2".into(),
        base_url: "http://other:1".into(),
        default_model: "n".into(),
        api_key: " ".into(),
    };
    let mut other = conn_x();
    other.name = "other".into();
    let added = connections::add(&answers, vec![conn_x(), other.clone()]);
    assert_eq!(added.connections.len(), 2);
    assert_eq!(added.connections[0], other);
    assert_eq!(added.connections[1].base_url, "http://other:1");
    assert_eq!(added.message, "Saved connection 'conn-x'.\n");
}

#[test]
fn list_reports_registered_marketplaces() {
    let text = marketplace::list(&[RegisteredMarketplace {
        name: "acme-tools".into(),
        source: MarketplaceSource::Remote {
            host: Host::GitHub,
            owner: "acme".into(),
            repo: "plugins".into(),
            path: String::new(),
            git_ref: "main".into(),
        },
    }]);
    assert!(text.contains("acme-tools · acme/plugins@main"), "got: {text}");
}

#[test]
fn list_reports_no_marketplaces() {
    assert!(marketplace::list(&[]).contains("No marketplaces registered"));
}

#[test]
fn remove_unregisters_the_marketplace() {
    assert!(marketplace::remove("acme-tools").contains("Removed marketplace 'acme-tools'"));
}

#[test]
fn marketplace_add_reports_added_or_replaced() {
    assert_eq!(
        marketplace::add_report(false, "local-dev", "local:/abs/dir", 1),
        "Added marketplace 'local-dev' from local:/abs/dir (1 plugin(s))\n"
    );
    assert_eq!(
        marketplace::add_report(true, "local-dev", "local:/abs/dir", 12),
        "Replaced marketplace 'local-dev' from local:/abs/dir (12 plugin(s))\n"
    );
}

#[test]
fn list_reports_no_servers_when_empty() {
    assert!(mcp::list(&[]).contains("No MCP servers configured"));
}

#[test]
fn list_prints_each_server_with_a_transport_summary() {
    let printed = mcp::list(&[McpServerConfig {
        name: "fs".into(),
        transport: McpTransportConfig::Stdio {
            command: "npx".into(),
            args: vec!["-y".into(), "@modelcontextprotocol/server-filesystem".into()],
        },
    }]);
    assert!(printed.contains("fs"));
    assert!(printed.contains("npx -y @modelcontextprotocol/server-filesystem"));
}

#[test]
fn remove_deletes_matching_server() {
    let removal = mcp::remove(
        vec![McpServerConfig {
            name: "gone".into(),
            transport: McpTransportConfig::Http { url: "http://x".into(), headers: vec![] },
        }],
        "gone",
    );
    assert!(removal.remaining.is_empty());
    assert!(removal.removed);
}

#[test]
fn mcp_remove_reports_when_name_not_found() {
    let removal = mcp::remove(vec![], "does-not-exist");
    assert!(removal.message.contains("No MCP server named"));
}

#[test]
fn add_then_search_finds_the_new_entry() {
    let buffer = format!(
        "<!-- buffer-date: 2026-07-06 -->\n\n{}",
        memory_entry("09:00:00Z", "Remember this fact about the build.")
    );
    let hits = search(&[("memory/now.md".to_string(), buffer)], "build");
    let out = search_command("build", &hits);
    assert!(out.contains("Remember this fact about the build."));
}

#[test]
fn search_reports_no_matches() {
    let out = search_command("nonexistent-term", &[]);
    assert!(out.contains("No memory entries matched"));
}

#[test]
fn core_add_command_appends_a_readable_core_memory() {
    let entry = memory_entry("2026-06-15", "  Ship small diffs.  ");
    assert_eq!(entry, "## 2026-06-15\nShip small diffs.\n\n");
    assert!(core_command(&entry).contains("Ship small diffs."));
}

#[test]
fn core_command_reports_none_recorded_when_empty() {
    assert!(core_command("").contains("No core memories recorded yet."));
}

#[test]
fn core_command_prints_full_core_memories_file() {
    let file = memory_entry("2026-06-15", "Never use unwrap() outside tests.");
    let printed = core_command(&file);
    assert!(printed.contains("## 2026-06-15"));
    assert!(printed.contains("Never use unwrap() outside tests."));
}

#[test]
fn set_prompts_stores_and_confirms() {
    assert_eq!(secret::set_prompt("gh-token"), "Value for 'gh-token': ");
    let stored = secret::set("gh-token", "tok-999\n").unwrap();
    assert_eq!(stored.value, "tok-999");
    assert_eq!(stored.message, "Stored secret 'gh-token'.\n");
    assert!(!stored.message.contains("tok-999"));
}

#[test]
fn set_rejects_empty_value() {
    let err = secret::set("empty-val", "\n").err().unwrap();
    assert!(err.contains("cannot be empty"));
}

#[test]
fn set_rejects_invalid_name() {
    let err = secret::set("bad name", "v\n").err().unwrap();
    assert!(err.contains("invalid secret name"));
}

#[test]
fn rm_removes_and_ls_lists_names_only() {
    assert!(secret::rm("drop").contains("Removed secret 'drop'."));
    let printed = secret::ls(&["keep".to_string()]);
    assert!(printed.contains("keep"));
    assert!(!printed.contains("drop"));
}

#[test]
fn ls_with_no_secrets_hints_at_set() {
    assert!(secret::ls(&[]).contains("No secrets stored"));
}

#[test]
fn list_reports_no_skills_installed() {
    assert!(skills::list(&[]).contains("No skills installed"));
    let printed = skills::list(&[SkillSummary {
        name: "pdf".into(),
        scope: Scope::Global,
        source: "acme/skills/pdf@main".into(),
    }]);
    assert_eq!(printed, "pdf · global · acme/skills/pdf@main\n");
}

#[test]
fn skill_removal_picks_the_scope_and_refuses_traversal() {
    let removal = skills::remove("pdf", true).unwrap();
    assert_eq!(removal.scope, Scope::Global);
    assert_eq!(
        skills::remove("../x", false).err().unwrap(),
        "skill name '../x' must not contain path separators or '..'"
    );
}

#[test]
fn skill_client_carries_the_stored_credentials() {
    assert!(matches!(
        skill_client(Host::GitHub, Some("ghp".into())).unwrap(),
        SkillClient::GitHub { token: Some(t) } if t == "ghp"
    ));
}

#[test]
fn headless_runs_need_a_terminal_when_they_can_prompt() {
    assert!(check_headless_stdin(Some(PermissionTier::Ask), true).is_ok());
    assert!(check_headless_stdin(Some(PermissionTier::FullAuto), false).is_ok());
    assert!(check_headless_stdin(None, false).is_ok());
    let err = check_headless_stdin(Some(PermissionTier::AutoAcceptEdits), false).unwrap_err();
    assert!(err.contains("requires an interactive terminal"));
}

#[test]
fn plugin_install_and_remove_reports_list_the_skills() {
    assert_eq!(
        plugin::install_report("fmt", "acme", Scope::Project, &["a".to_string(), "b".to_string()]),
        "Installed plugin 'fmt' from marketplace 'acme' (project):\n  skill 'a'\n  skill 'b'\n"
    );
    assert_eq!(
        plugin::remove("fmt", Scope::Global, &["a".to_string()]),
        "Removed plugin 'fmt' (global):\n  skill 'a'\n"
    );
}

#[test]
fn plugin_list_shows_descriptions_and_install_status() {
    let registered = vec![RegisteredMarketplace {
        name: "acme".into(),
        source: MarketplaceSource::Local { path: "/m".into() },
    }];
    let available = vec![
        AvailablePlugin {
            marketplace: "acme".into(),
            name: "fmt".into(),
            description: Some("Formats code".into()),
            installed_scopes: vec![Scope::Project, Scope::Global],
        },
        AvailablePlugin {
            marketplace: "acme".into(),
            name: "lint".into(),
            description: None,
            installed_scopes: vec![],
        },
    ];
    assert_eq!(
        plugin::list(&registered, &available),
        "fmt@acme · Formats code · installed (project, global)\nlint@acme · (no description) · not installed\n"
    );
    assert_eq!(plugin::list(&registered, &[]), "No plugins available.\n");
    assert!(plugin::list(&[], &available).starts_with("No marketplaces registered"));
}

#[test]
fn plugin_update_reports_each_outcome_and_counts_failures() {
    let report = PluginUpdateReport {
        updated: vec!["a".into()],
        added: vec!["b".into()],
        removed: vec!["c".into()],
        up_to_date: vec![],
    };
    let quiet = PluginUpdateReport { updated: vec![], added: vec![], removed: vec![], up_to_date: vec!["a".into()] };
    let (text, result) = plugin::update(
        "fmt",
        &[
            UpdateOutcome::Updated(report),
            UpdateOutcome::Updated(quiet),
            UpdateOutcome::Failed("boom".into()),
        ],
    );
    assert_eq!(
        text,
        "Updated skill 'a'\nInstalled new skill 'b'\nRemoved skill 'c' (no longer in the plugin)\nPlugin 'fmt' is already up to date\nFailed to update plugin 'fmt': boom\n"
    );
    assert_eq!(result, Err("1 plugin update(s) failed".to_string()));
    let (text, result) = plugin::update("fmt", &[]);
    assert_eq!(text, "");
    assert_eq!(result, Err("no plugin named 'fmt' is installed in this scope".to_string()));
}

#[test]
fn unknown_plugin_refusal_points_at_plugin_list() {
    let e = local_code::marketplace::install::MarketplaceError::UnknownPlugin {
        marketplace: "acme".to_string(),
        plugin: "fmt".to_string(),
    };
    assert_eq!(
        plugin::with_plugin_list_hint(&e, "acme").as_deref(),
        Some("marketplace 'acme' has no plugin named 'fmt' (see `local-code plugin list` for what 'acme' offers)")
    );
    let other = local_code::marketplace::install::MarketplaceError::NoSkills("fmt".to_string());
    assert_eq!(plugin::with_plugin_list_hint(&other, "acme"), None);
}

#[test]
fn the_global_flag_selects_the_global_scope() {
    assert_eq!(skills::scope_of(true), Scope::Global);
    assert_eq!(skills::scope_of(false), Scope::Project);
    assert_eq!(skills::scope_label(Scope::Global), "global");
    assert_eq!(skills::scope_label(Scope::Project), "project");
}

fn read_manifest(plugin: Option<(&str, &str)>, host: Host) -> ManifestRead {
    ManifestRead::Read(InstalledSkillManifest {
        host,
        owner: "acme".into(),
        repo: "skills".into(),
        path: "pdf".into(),
        git_ref: "main".into(),
        commit_sha: "c1".into(),
        plugin: plugin.map(|(p, m)| PluginProvenance { plugin: p.into(), marketplace: m.into() }),
    })
}

#[test]
fn skills_update_with_nothing_installed_says_so() {
    let plan = plan_skills_update(false, &[]).unwrap();
    assert_eq!(plan.notes, "No skills installed in this scope.\n");
    assert!(plan.skills.is_empty() && plan.hosts.is_empty());
}

#[test]
fn skills_update_leaves_plugin_skills_to_plugin_update_and_skips_unreadable_ones() {
    let reads = vec![
        ("pdf".to_string(), read_manifest(None, Host::GitHub)),
        ("fmt".to_string(), read_manifest(Some(("formatter", "acme-tools")), Host::GitHub)),
        ("broken".to_string(), ManifestRead::Unreadable("bad manifest".into())),
        ("lint".to_string(), read_manifest(None, Host::GitLab)),
        ("docs".to_string(), read_manifest(None, Host::GitHub)),
    ];
    let plan = plan_skills_update(false, &reads).unwrap();
    assert_eq!(
        plan.notes,
        "Skill 'fmt' is managed by plugin 'formatter@acme-tools' — use `local-code plugin update formatter` to update it\nwarning: skipping skill 'broken': bad manifest\n"
    );
    let names: Vec<&str> = plan.skills.iter().map(|(n, _)| n.as_str()).collect();
    assert_eq!(names, vec!["pdf", "lint", "docs"]);
    assert_eq!(plan.hosts, vec![Host::GitHub, Host::GitLab]);
}

#[test]
fn an_unreadable_named_skill_fails_skills_update() {
    let reads = vec![("pdf".to_string(), ManifestRead::Unreadable("no manifest".into()))];
    assert_eq!(plan_skills_update(true, &reads).unwrap_err(), "no manifest");
}

#[test]
fn skills_update_reports_each_skill_and_counts_failures() {
    let results = vec![
        ("pdf".to_string(), Ok(true)),
        ("lint".to_string(), Ok(false)),
        ("docs".to_string(), Err("HTTP 404".to_string())),
    ];
    let (text, outcome) = skills_update_report(&results);
    assert_eq!(
        text,
        "Updated skill 'pdf'\nSkill 'lint' is already up to date\nFailed to update skill 'docs': HTTP 404\n"
    );
    assert_eq!(outcome.unwrap_err(), "1 skill update(s) failed");
    let (_, ok) = skills_update_report(&results[..2]);
    assert!(ok.is_ok());
}

#[test]
fn skills_install_reports_name_source_and_scope() {
    assert_eq!(
        skills::install_report("pdf", "acme/skills/pdf", Scope::Global),
        "Installed skill 'pdf' from acme/skills/pdf (global)\n"
    );
}

#[test]
fn update_a_single_missing_skill_errors_instead_of_exiting_ok() {
    assert_eq!(
        check_skills_update(Some("pdf"), false).unwrap_err(),
        "no skill named 'pdf' is installed in this scope"
    );
    assert!(check_skills_update(Some("../escape"), true)
        .unwrap_err()
        .contains("must not contain path separators"));
    assert!(check_skills_update(Some("pdf"), true).is_ok());
    assert!(check_skills_update(None, false).is_ok());
}
