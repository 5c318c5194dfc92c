use local_code::config::mcp_servers::mcp_file_in;
use local_code::config::pass_backend::entry_name;
use local_code::config::secrets::is_valid_secret_name;

#[test]
fn entry_name_nests_user_under_service_folder() {
    assert_eq!(entry_name("local-code", "secret:gh"), "local-code/secret:gh");
}

#[test]
fn secret_name_validation_accepts_the_documented_charset_only() {
    assert!(is_valid_secret_name("github-mcp"));
    assert!(is_valid_secret_name("A1_b-2"));
    assert!(!is_valid_secret_name(""));
    assert!(!is_valid_secret_name("has space"));
    assert!(!is_valid_secret_name("has:colon"));
    assert!(!is_valid_secret_name("hàs-unicode"));
}

use local_code::config::connection::{load_connections, Connection, ConnectionsFile, ProviderKind};
use local_code::config::interpolate::{interpolate_refs, references, RefKind};
use local_code::config::mcp_servers::{
    interpolate_transport, load_mcp_servers, load_mcp_servers_raw, McpServerConfig,
    McpServersFile, McpTransportConfig,
};
use local_code::config::paths::Paths;
use local_code::config::secrets::{secret_user, service_name};
use local_code::permissions::settings::{load_settings, PermissionSettings, SettingsFile};

fn connection(name: &str, provider: ProviderKind, base_url: &str, model: &str) -> Connection {
    Connection {
        name: name.into(),
        provider,
        base_url: base_url.into(),
        default_model: model.into(),
        models: vec![],
        effort: None,
    }
}

fn stdio(name: &str, command: &str) -> McpServerConfig {
    McpServerConfig {
        name: name.into(),
        transport: McpTransportConfig::Stdio { command: command.into(), args: vec![] },
    }
}

#[test]
fn project_connection_overrides_user_connection_of_same_name() {
    let user = ConnectionsFile {
        connections: vec![connection("shared", ProviderKind::OpenAiCompatible, "http://user-host:8000/v1", "model-a")],
    };
    let project = ConnectionsFile {
        connections: vec![connection("shared", ProviderKind::OpenAiCompatible, "http://project-host:8000/v1", "model-b")],
    };
    let connections = load_connections(user, project);
    assert_eq!(connections.len(), 1);
    assert_eq!(connections[0].base_url, "http://project-host:8000/v1");
    assert_eq!(connections[0].default_model, "model-b");
}

#[test]
fn connection_distinct_names_from_both_files_are_kept() {
    let user = ConnectionsFile {
        connections: vec![connection("user-conn", ProviderKind::OpenAiCompatible, "http://a/v1", "m")],
    };
    let project = ConnectionsFile {
        connections: vec![connection("project-conn", ProviderKind::Ollama, "http://b", "m2")],
    };
    let connections = load_connections(user, project);
    let names: Vec<_> = connections.iter().map(|c| c.name.as_str()).collect();
    assert_eq!(names, vec!["user-conn", "project-conn"]);
}

#[test]
fn connection_missing_files_yield_empty_list_not_error() {
    let connections = load_connections(ConnectionsFile::empty(), ConnectionsFile::empty());
    assert!(connections.is_empty());
}

#[test]
fn layering_keeps_user_order_and_appends_new_project_entries() {
    let user = ConnectionsFile {
        connections: vec![
            connection("a", ProviderKind::Ollama, "http://a", "m"),
            connection("b", ProviderKind::Ollama, "http://b", "m"),
        ],
    };
    let project = ConnectionsFile {
        connections: vec![
            connection("c", ProviderKind::Ollama, "http://c", "m"),
            connection("a", ProviderKind::Ollama, "http://a2", "m"),
        ],
    };
    let connections = load_connections(user, project);
    let names: Vec<_> = connections.iter().map(|c| (c.name.as_str(), c.base_url.as_str())).collect();
    assert_eq!(names, vec![("a", "http://a2"), ("b", "http://b"), ("c", "http://c")]);
}

#[test]
fn project_server_overrides_user_server_of_same_name() {
    let servers = load_mcp_servers(
        McpServersFile { servers: vec![stdio("shared", "user-command")] },
        McpServersFile { servers: vec![stdio("shared", "project-command")] },
        &vec![],
        &vec![],
    );
    assert_eq!(servers.len(), 1);
    assert_eq!(
        servers[0].transport,
        McpTransportConfig::Stdio { command: "project-command".into(), args: vec![] }
    );
}

#[test]
fn mcp_servers_distinct_names_from_both_files_are_kept() {
    let servers = load_mcp_servers(
        McpServersFile { servers: vec![stdio("user-server", "a")] },
        McpServersFile {
            servers: vec![McpServerConfig {
                name: "project-server".into(),
                transport: McpTransportConfig::Http { url: "http://b".into(), headers: vec![] },
            }],
        },
        &vec![],
        &vec![],
    );
    let names: Vec<_> = servers.iter().map(|s| s.name.as_str()).collect();
    assert_eq!(names, vec!["user-server", "project-server"]);
}

#[test]
fn mcp_servers_missing_files_yield_empty_list_not_error() {
    let servers = load_mcp_servers(
        McpServersFile { servers: vec![] },
        McpServersFile { servers: vec![] },
        &vec![],
        &vec![],
    );
    assert!(servers.is_empty());
}

#[test]
fn missing_keyring_reference_resolves_to_empty_string() {
    let resolved = interpolate_refs("Bearer ${keyring:not-stored-anywhere}", &vec![], &vec![]);
    assert_eq!(resolved, "Bearer ");
}

#[test]
fn references_resolve_from_the_environment_and_the_keyring() {
    let env = vec![("TOKEN".to_string(), "abc".to_string())];
    let secrets = vec![("gh".to_string(), "s3cret".to_string())];
    assert_eq!(
        interpolate_refs("Bearer ${TOKEN} / ${keyring:gh} / ${not closed / ${1BAD}", &env, &secrets),
        "Bearer abc / s3cret / ${not closed / ${1BAD}"
    );
    assert_eq!(
        references("x ${A_1} ${keyring:k-2}"),
        vec![(RefKind::Env, "A_1".to_string()), (RefKind::Keyring, "k-2".to_string())]
    );
}

#[test]
fn raw_loading_keeps_references_literal() {
    let server = McpServerConfig {
        name: "api".into(),
        transport: McpTransportConfig::Http {
            url: "https://x/${HOST}".into(),
            headers: vec![("Authorization".into(), "Bearer ${TOKEN}".into())],
        },
    };
    let raw = load_mcp_servers_raw(McpServersFile { servers: vec![server.clone()] }, McpServersFile { servers: vec![] });
    assert_eq!(raw, vec![server.clone()]);
    let env = vec![("HOST".to_string(), "h".to_string()), ("TOKEN".to_string(), "t".to_string())];
    assert_eq!(
        interpolate_transport(server.transport, &env, &vec![]),
        McpTransportConfig::Http {
            url: "https://x/h".into(),
            headers: vec![("Authorization".into(), "Bearer t".into())],
        }
    );
}

#[test]
fn project_config_dir_is_dot_local_code_under_project_root() {
    let paths = Paths::from_dirs("/cfg/local-code", None, "/data/local-code", "/home/user/myproject");
    assert_eq!(paths.project_config_dir, "/home/user/myproject/.local-code");
}

#[test]
fn user_dirs_follow_the_xdg_base_directory_spec() {
    let paths = Paths::from_dirs(
        "/home/u/.config/local-code",
        Some("/home/u/.local/state/local-code"),
        "/home/u/.local/share/local-code",
        "project",
    );
    assert_eq!(paths.user_config_dir, "/home/u/.config/local-code");
    assert_eq!(paths.user_state_dir, "/home/u/.local/state/local-code");
    let fallback = Paths::from_dirs("/c", None, "/data", "p");
    assert_eq!(fallback.user_state_dir, "/data");
}

#[test]
fn named_secrets_do_not_collide_with_connection_keys() {
    assert_eq!(service_name(), "local-code");
    assert_eq!(secret_user("gh"), "secret:gh");
}

fn settings(allow: &[&str], deny: &[&str]) -> SettingsFile {
    SettingsFile {
        permissions: PermissionSettings {
            always_allow: allow.iter().map(|s| s.to_string()).collect(),
            always_deny: deny.iter().map(|s| s.to_string()).collect(),
        },
    }
}

#[test]
fn missing_files_yield_empty_lists() {
    let s = load_settings(settings(&[], &[]), settings(&[], &[]));
    assert!(s.always_allow.is_empty());
    assert!(s.always_deny.is_empty());
}

#[test]
fn unions_rules_from_both_files() {
    let s = load_settings(settings(&["cargo test"], &[]), settings(&["cargo build"], &["rm -rf"]));
    assert_eq!(s.always_allow, vec!["cargo test", "cargo build"]);
    assert_eq!(s.always_deny, vec!["rm -rf"]);
}

#[test]
fn deduplicates_rule_present_in_both_files() {
    let s = load_settings(settings(&[], &["rm -rf"]), settings(&[], &["rm -rf"]));
    assert_eq!(s.always_deny, vec!["rm -rf"]);
}

#[test]
fn mcp_file_prefers_the_current_name_then_the_legacy_one() {
    assert_eq!(mcp_file_in("/p", true, true).as_deref(), Some("/p/mcp.toml"));
    assert_eq!(mcp_file_in("/p", false, true).as_deref(), Some("/p/mcp-servers.toml"));
    assert_eq!(mcp_file_in("/p", false, false), None);
}
