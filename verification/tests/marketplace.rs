use local_code::cli::marketplace::marketplace_host_client;
use local_code::marketplace::install::MarketplaceError;
use local_code::skills::types::SkillClient;
use local_code::marketplace::catalog::{join_repo_path, resolve_relative_source};
use local_code::marketplace::source::{
    parse_add_spec, parse_git_url, AddSpecError, GitUrlError, MarketplaceSource, ParsedAddSpec,
};
use local_code::skills::types::Host;

#[test]
fn relative_source_strips_dot_slash() {
    assert_eq!(
        resolve_relative_source("./plugins/formatter", None).unwrap(),
        "plugins/formatter"
    );
}

#[test]
fn bare_source_joins_plugin_root() {
    assert_eq!(
        resolve_relative_source("formatter", Some("./plugins")).unwrap(),
        "plugins/formatter"
    );
}

#[test]
fn join_repo_path_handles_empty_base() {
    assert_eq!(join_repo_path("", "plugins/foo"), "plugins/foo");
    assert_eq!(join_repo_path("mkt", "plugins/foo"), "mkt/plugins/foo");
    assert_eq!(join_repo_path("mkt/", "plugins/foo"), "mkt/plugins/foo");
}

#[test]
fn dot_slash_path_that_does_not_exist_is_a_local_error_not_a_remote_spec() {
    let result = parse_add_spec("./definitely-not-here-xyz", None);
    assert!(matches!(result, Err(AddSpecError::LocalDirNotFound(_))));
}

#[test]
fn absolute_path_that_does_not_exist_is_a_local_error() {
    let result = parse_add_spec("/definitely/not/here-xyz", None);
    assert!(matches!(result, Err(AddSpecError::LocalDirNotFound(_))));
}

#[test]
fn bare_owner_repo_is_a_remote_github_spec() {
    let result = parse_add_spec("acme/plugins", None).unwrap();
    let ParsedAddSpec::Remote(parsed) = result else {
        panic!("expected Remote, got {result:?}");
    };
    assert_eq!(parsed.source.host, Host::GitHub);
    assert_eq!(parsed.source.owner, "acme");
    assert_eq!(parsed.source.repo, "plugins");
    assert!(!parsed.needs_project_path_resolution);
}

#[test]
fn gitlab_shorthand_is_a_remote_spec_pending_resolution() {
    let result = parse_add_spec("gl:group/sub/plugins@main", None).unwrap();
    let ParsedAddSpec::Remote(parsed) = result else {
        panic!("expected Remote, got {result:?}");
    };
    assert_eq!(parsed.source.host, Host::GitLab);
    assert!(parsed.needs_project_path_resolution);
}

#[test]
fn git_url_parses_github_https_with_git_suffix() {
    let source = parse_git_url("https://github.com/acme/plugin.git").unwrap();
    assert_eq!(source.host, Host::GitHub);
    assert_eq!(source.owner, "acme");
    assert_eq!(source.repo, "plugin");
}

#[test]
fn git_url_parses_bitbucket_https() {
    let source = parse_git_url("https://bitbucket.org/acme/plugin").unwrap();
    assert_eq!(source.host, Host::Bitbucket);
    assert_eq!(source.owner, "acme");
    assert_eq!(source.repo, "plugin");
}

#[test]
fn git_url_treats_whole_gitlab_path_as_the_project_path() {
    let source = parse_git_url("https://gitlab.com/group/sub/project.git").unwrap();
    assert_eq!(source.host, Host::GitLab);
    assert_eq!(source.owner, "");
    assert_eq!(source.repo, "group/sub/project");
    assert_eq!(source.path, "");
}

#[test]
fn git_url_parses_github_owner_repo_shorthand() {
    let source = parse_git_url("acme/plugin").unwrap();
    assert_eq!(source.host, Host::GitHub);
    assert_eq!(source.owner, "acme");
    assert_eq!(source.repo, "plugin");
    assert_eq!(source.path, "");
}

#[test]
fn git_url_parses_shorthand_with_git_suffix() {
    let source = parse_git_url("acme/plugin.git").unwrap();
    assert_eq!(source.host, Host::GitHub);
    assert_eq!(source.owner, "acme");
    assert_eq!(source.repo, "plugin");
}

#[test]
fn git_url_parses_scp_style_ssh_urls() {
    let source = parse_git_url("git@github.com:acme/plugin.git").unwrap();
    assert_eq!(source.host, Host::GitHub);
    assert_eq!(source.owner, "acme");
    assert_eq!(source.repo, "plugin");

    let source = parse_git_url("git@gitlab.com:group/sub/project.git").unwrap();
    assert_eq!(source.host, Host::GitLab);
    assert_eq!(source.repo, "group/sub/project");

    let source = parse_git_url("git@bitbucket.org:acme/plugin").unwrap();
    assert_eq!(source.host, Host::Bitbucket);
    assert_eq!(source.owner, "acme");
    assert_eq!(source.repo, "plugin");
}

#[test]
fn git_url_parses_ssh_scheme_urls_with_and_without_a_user() {
    let source = parse_git_url("ssh://git@github.com/acme/plugin.git").unwrap();
    assert_eq!(source.host, Host::GitHub);
    assert_eq!(source.owner, "acme");
    assert_eq!(source.repo, "plugin");

    let source = parse_git_url("ssh://github.com/acme/plugin").unwrap();
    assert_eq!(source.host, Host::GitHub);
    assert_eq!(source.owner, "acme");
    assert_eq!(source.repo, "plugin");
}

#[test]
fn git_url_rejects_unknown_and_self_hosted_hosts() {
    assert!(matches!(
        parse_git_url("https://git.example.com/acme/plugin.git"),
        Err(GitUrlError::Unsupported(_))
    ));
    assert!(matches!(
        parse_git_url("git@git.example.com:acme/plugin.git"),
        Err(GitUrlError::Unsupported(_))
    ));
}

#[test]
fn git_url_rejects_malformed_ssh_urls() {
    assert!(matches!(
        parse_git_url("git@github.com:"),
        Err(GitUrlError::Unsupported(_))
    ));
    assert!(matches!(
        parse_git_url("ssh://git@github.com/acme"),
        Err(GitUrlError::Unsupported(_))
    ));
}

#[test]
fn git_url_rejects_shorthand_with_wrong_segment_count() {
    assert!(matches!(parse_git_url("acme"), Err(GitUrlError::Unsupported(_))));
    assert!(matches!(
        parse_git_url("acme/plugin/tree"),
        Err(GitUrlError::Unsupported(_))
    ));
}

#[test]
fn git_url_rejects_extra_path_segments_on_flat_hosts() {
    assert!(matches!(
        parse_git_url("https://github.com/acme/plugin/tree/main"),
        Err(GitUrlError::Unsupported(_))
    ));
}

#[test]
fn source_summary_renders_each_variant() {
    let remote = MarketplaceSource::Remote {
        host: Host::GitHub,
        owner: "acme".into(),
        repo: "plugins".into(),
        path: String::new(),
        git_ref: "main".into(),
    };
    assert_eq!(remote.summary(), "acme/plugins@main");

    let gitlab = MarketplaceSource::Remote {
        host: Host::GitLab,
        owner: String::new(),
        repo: "group/plugins".into(),
        path: "catalog".into(),
        git_ref: "main".into(),
    };
    assert_eq!(gitlab.summary(), "gl:group/plugins/catalog@main");

    let local = MarketplaceSource::Local { path: "/abs/dir".into() };
    assert_eq!(local.summary(), "local:/abs/dir");
}

use local_code::marketplace::catalog::{
    validate_catalog, validate_in_repo_path, valid_component_name, CatalogError, CatalogMetadata,
    CatalogOwner, CatalogPlugin, MarketplaceCatalog, OneOrManyStrings, PluginSource,
};
use local_code::marketplace::registry::{
    add_marketplace, find_marketplace, remove_marketplace, RegisteredMarketplace, RegistryError,
};

fn catalog(name: &str, plugins: Vec<CatalogPlugin>) -> MarketplaceCatalog {
    MarketplaceCatalog {
        name: name.into(),
        owner: CatalogOwner { name: "o".into(), email: None },
        description: None,
        metadata: CatalogMetadata { description: None, version: None, plugin_root: None },
        plugins,
    }
}

fn plugin_named(name: &str) -> CatalogPlugin {
    CatalogPlugin {
        name: name.into(),
        source: PluginSource::Relative("./x".into()),
        description: None,
        version: None,
        author: None,
        skills: None,
    }
}

#[test]
fn top_level_description_wins_over_metadata_description() {
    let mut c = catalog("m", vec![]);
    c.description = Some("top".into());
    c.metadata.description = Some("meta".into());
    assert_eq!(c.description(), Some("top"));
    c.description = None;
    assert_eq!(c.description(), Some("meta"));
}

#[test]
fn minimal_catalog_with_empty_plugins_is_valid() {
    let c = validate_catalog(catalog("m", vec![])).unwrap();
    assert!(c.plugins.is_empty());
    assert_eq!(c.description(), None);
}

#[test]
fn marketplace_name_with_at_sign_is_rejected() {
    let result = validate_catalog(catalog("bad@name", vec![]));
    assert!(matches!(result, Err(CatalogError::InvalidMarketplaceName(_))));
}

#[test]
fn marketplace_name_with_space_is_rejected() {
    let result = validate_catalog(catalog("bad name", vec![]));
    assert!(matches!(result, Err(CatalogError::InvalidMarketplaceName(_))));
}

#[test]
fn plugin_name_with_separator_is_rejected() {
    let result = validate_catalog(catalog("m", vec![plugin_named("a/b")]));
    assert!(matches!(result, Err(CatalogError::InvalidPluginName(n)) if n == "a/b"));
}

#[test]
fn catalog_plugins_are_found_by_name() {
    let c = catalog("m", vec![plugin_named("fmt"), plugin_named("lint")]);
    assert_eq!(c.plugin("lint").unwrap().name, "lint");
    assert!(c.plugin("nope").is_none());
    assert_eq!(
        OneOrManyStrings::One("./extra-skills/".into()).into_vec(),
        vec!["./extra-skills/".to_string()]
    );
    assert!(valid_component_name("code-formatter"));
    assert!(!valid_component_name(".."));
}

#[test]
fn bare_source_without_plugin_root_is_rejected() {
    let result = resolve_relative_source("formatter", None);
    assert!(matches!(result, Err(CatalogError::InvalidRelativeSource(_))));
}

#[test]
fn source_path_escaping_the_marketplace_root_is_rejected() {
    assert!(matches!(
        resolve_relative_source("./../outside", None),
        Err(CatalogError::UnsafeSourcePath(_))
    ));
    assert!(matches!(
        resolve_relative_source("../../outside", Some("./plugins")),
        Err(CatalogError::UnsafeSourcePath(_))
    ));
    assert!(matches!(validate_in_repo_path("a//b"), Err(CatalogError::UnsafeSourcePath(_))));
    assert_eq!(validate_in_repo_path("tools/plugin/").unwrap(), "tools/plugin");
    assert!(matches!(
        validate_in_repo_path("/plugins/foo"),
        Err(CatalogError::UnsafeSourcePath(p)) if p == "/plugins/foo"
    ));
    assert!(matches!(
        resolve_relative_source("formatter", Some("/plugins")),
        Err(CatalogError::UnsafeSourcePath(p)) if p == "formatter"
    ));
}

fn remote_entry(name: &str) -> RegisteredMarketplace {
    RegisteredMarketplace {
        name: name.into(),
        source: MarketplaceSource::Remote {
            host: Host::GitHub,
            owner: "acme".into(),
            repo: "plugins".into(),
            path: String::new(),
            git_ref: "main".into(),
        },
    }
}

#[test]
fn add_then_list_round_trips_both_source_kinds() {
    let (reg, _) = add_marketplace(vec![], remote_entry("acme-tools"));
    let (reg, _) = add_marketplace(
        reg,
        RegisteredMarketplace {
            name: "local-dev".into(),
            source: MarketplaceSource::Local { path: "/abs/marketplace".into() },
        },
    );
    assert_eq!(reg.len(), 2);
    assert_eq!(reg[0], remote_entry("acme-tools"));
    assert_eq!(reg[1].source, MarketplaceSource::Local { path: "/abs/marketplace".into() });
}

#[test]
fn adding_the_same_name_replaces_and_reports_it() {
    let (reg, replaced) = add_marketplace(vec![], remote_entry("acme-tools"));
    assert!(!replaced);
    let mut updated = remote_entry("acme-tools");
    updated.source = MarketplaceSource::Local { path: "/elsewhere".into() };
    let (reg, replaced) = add_marketplace(reg, updated);
    assert!(replaced);
    assert_eq!(reg.len(), 1);
    assert_eq!(reg[0].source, MarketplaceSource::Local { path: "/elsewhere".into() });
}

#[test]
fn remove_deletes_the_entry() {
    let (reg, _) = add_marketplace(vec![], remote_entry("acme-tools"));
    let reg = remove_marketplace(reg, "acme-tools").unwrap();
    assert!(reg.is_empty());
}

#[test]
fn removing_an_unknown_marketplace_errors() {
    let result = remove_marketplace(vec![], "nope");
    assert!(matches!(result, Err(RegistryError::NotRegistered(name)) if name == "nope"));
    assert_eq!(
        RegistryError::NotRegistered("nope".into()).message(),
        "no marketplace named 'nope' is registered (see `local-code marketplace list`)"
    );
}

#[test]
fn find_returns_the_named_entry() {
    let (reg, _) = add_marketplace(vec![], remote_entry("acme-tools"));
    assert_eq!(find_marketplace(&reg, "acme-tools").unwrap(), remote_entry("acme-tools"));
    assert!(matches!(find_marketplace(&reg, "nope"), Err(RegistryError::NotRegistered(_))));
}

#[test]
fn an_existing_local_directory_is_a_local_spec() {
    let result = parse_add_spec("./my-marketplace", Some("/work/my-marketplace".into())).unwrap();
    assert!(matches!(result, ParsedAddSpec::Local(p) if p == "/work/my-marketplace"));
}

#[test]
fn registry_file_is_user_level() {
    let paths = local_code::config::paths::Paths::from_dirs("/cfg/local-code", None, "/data", "/proj");
    assert_eq!(
        local_code::marketplace::registry::registry_path(&paths),
        "/cfg/local-code/marketplaces.toml"
    );
}

#[test]
fn marketplace_host_client_maps_a_malformed_bitbucket_key_to_client_build() {
    match marketplace_host_client(Host::Bitbucket, Some("no-separator".to_string())) {
        Err(MarketplaceError::ClientBuild(m)) => assert!(m.contains("username:app_password")),
        other => panic!("expected a client-build error, got {other:?}"),
    }
    match marketplace_host_client(Host::Bitbucket, Some("alice:pw".to_string())) {
        Ok(SkillClient::Bitbucket { credentials: Some((u, p)) }) => {
            assert_eq!(u, "alice");
            assert_eq!(p, "pw");
        }
        other => panic!("expected bitbucket credentials, got {other:?}"),
    }
    assert!(matches!(
        marketplace_host_client(Host::GitHub, None),
        Ok(SkillClient::GitHub { token: None })
    ));
}

#[test]
fn catalog_errors_read_as_the_user_sees_them() {
    assert_eq!(
        CatalogError::InvalidPluginName("a b".to_string()).message(),
        "invalid plugin name 'a b' (no spaces, '@', '/', '\\\\', or '..')"
    );
    assert_eq!(
        CatalogError::InvalidMarketplaceName("x/y".to_string()).message(),
        "invalid marketplace name 'x/y' (it becomes the `plugin@name` install suffix — no spaces, '@', '/', '\\\\', or '..')"
    );
    assert_eq!(
        CatalogError::InvalidRelativeSource("plugins/a".to_string()).message(),
        "relative plugin source 'plugins/a' must start with \"./\" (or set metadata.pluginRoot in the marketplace)"
    );
    assert_eq!(
        CatalogError::UnsafeSourcePath("../x".to_string()).message(),
        "plugin source path '../x' must not contain '..' segments or be absolute"
    );
    assert_eq!(
        CatalogError::Parse("eof".to_string()).message(),
        "failed to parse marketplace.json: eof"
    );
}

#[test]
fn git_url_error_names_the_supported_forms() {
    let m = GitUrlError::Unsupported("ftp://x".to_string()).message();
    assert!(m.starts_with("unsupported git URL 'ftp://x' — "));
    assert!(m.ends_with("or GitHub owner/repo shorthand"));
}

#[test]
fn skill_specs_name_host_owner_repo_path_and_ref() {
    let p = local_code::skills::spec::parse_spec("acme/tools/skills/fmt@v2").unwrap();
    assert_eq!(p.source.host, Host::GitHub);
    assert_eq!(p.source.owner, "acme");
    assert_eq!(p.source.repo, "tools");
    assert_eq!(p.source.path, "skills/fmt");
    assert_eq!(p.source.git_ref.as_deref(), Some("v2"));
    assert!(!p.needs_project_path_resolution);

    let gl = local_code::skills::spec::parse_spec("gl:group/sub/project").unwrap();
    assert_eq!(gl.source.host, Host::GitLab);
    assert_eq!(gl.source.repo, "group/sub/project");
    assert!(gl.needs_project_path_resolution);

    let bb = local_code::skills::spec::parse_spec("https://bitbucket.org/team/repo").unwrap();
    assert_eq!(bb.source.host, Host::Bitbucket);
    assert_eq!(bb.source.owner, "team");
    assert_eq!(bb.source.repo, "repo");

    assert!(local_code::skills::spec::parse_spec("acme/tools@").is_err());
    assert!(local_code::skills::spec::parse_spec("just-a-name").is_err());
    assert!(local_code::skills::spec::parse_spec("https://example.com/a/b").is_err());
}

#[test]
fn accepted_in_repo_paths_have_no_dot_dot_segment() {
    for bad in ["..", "../x", "x/..", "a/../b", "", "/", "a//b", "/a", "//a/b.c//"] {
        assert!(validate_in_repo_path(bad).is_err(), "{bad:?} was accepted");
    }
    for (good, normal) in [("a/..b", "a/..b"), ("..a/b", "..a/b"), ("a/b.c//", "a/b.c")] {
        assert_eq!(validate_in_repo_path(good).unwrap(), normal);
    }
}

#[test]
fn every_git_url_form_names_the_same_repository() {
    for url in [
        "https://github.com/acme/tools",
        "https://github.com/acme/tools.git",
        "https://github.com/acme/tools/",
        "git@github.com:acme/tools.git",
        "ssh://git@github.com/acme/tools",
        "ssh://github.com/acme/tools",
        "acme/tools",
    ] {
        let s = parse_git_url(url).unwrap();
        assert_eq!((s.host, s.owner.as_str(), s.repo.as_str(), s.path.as_str()), (Host::GitHub, "acme", "tools", ""), "{url}");
        assert_eq!(s.git_ref, None);
    }
    for url in ["https://bitbucket.org/team/repo", "git@bitbucket.org:team/repo.git", "ssh://bitbucket.org/team/repo"] {
        let s = parse_git_url(url).unwrap();
        assert_eq!((s.host, s.owner.as_str(), s.repo.as_str()), (Host::Bitbucket, "team", "repo"), "{url}");
    }
}
