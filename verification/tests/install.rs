use local_code::marketplace::catalog::{
    CatalogError, CatalogMetadata, CatalogOwner, CatalogPlugin, MarketplaceCatalog,
    OneOrManyStrings, PluginSource, RemotePluginSource,
};
use local_code::marketplace::install::{
    available_plugins, check_plugin_update, find_catalog_file, find_skill_dirs, hosted_ref_plan, installed_plugin_marketplaces,
    installed_scopes, plan_plugin_skills, plan_update, plugin_is_installed, relative_plugin_target,
    remote_plugin_target, remove_plugin, CatalogPin, ManifestCoords, MarketplaceError, PluginContent,
    RefPlan, RelativeTarget, UpdateStep,
};
use local_code::marketplace::registry::RegisteredMarketplace;
use local_code::marketplace::source::MarketplaceSource;
use local_code::skills::types::{FetchedFile, Host, InstalledSkillManifest, PluginProvenance, Scope};

fn file(path: &str) -> FetchedFile {
    FetchedFile { relative_path: path.to_string(), bytes: b"x".to_vec() }
}

fn entry(name: &str, skills: Option<OneOrManyStrings>) -> CatalogPlugin {
    CatalogPlugin {
        name: name.to_string(),
        source: PluginSource::Relative(format!("./plugins/{name}")),
        description: None,
        version: None,
        author: None,
        skills,
    }
}

fn coords(sha: &str) -> ManifestCoords {
    ManifestCoords {
        host: Host::GitHub,
        owner: "acme".to_string(),
        repo: "plugins".to_string(),
        plugin_path: "plugins/foo".to_string(),
        git_ref: "main".to_string(),
        commit_sha: sha.to_string(),
        is_local: false,
    }
}

fn manifest(marketplace: &str, plugin: &str, sha: &str) -> InstalledSkillManifest {
    InstalledSkillManifest {
        host: Host::GitHub,
        owner: "acme".to_string(),
        repo: "plugins".to_string(),
        path: "plugins/foo/skills/bar".to_string(),
        git_ref: "main".to_string(),
        commit_sha: sha.to_string(),
        plugin: Some(PluginProvenance {
            marketplace: marketplace.to_string(),
            plugin: plugin.to_string(),
        }),
    }
}

#[test]
fn default_skill_dirs_are_the_skill_holding_subdirectories_of_skills() {
    let files = vec![
        file("skills/bar/SKILL.md"),
        file("skills/bar/notes.txt"),
        file("skills/baz/SKILL.mdc"),
        file("skills/empty/README.md"),
        file("README.md"),
    ];
    assert_eq!(find_skill_dirs(&files, &entry("foo", None)), vec!["skills/bar", "skills/baz"]);
}

#[test]
fn entry_skills_paths_point_directly_at_a_skill_dir() {
    let files = vec![file("extra/review/SKILL.md"), file("skills/bar/SKILL.md")];
    let e = entry("custom", Some(OneOrManyStrings::One("./extra/review".to_string())));
    assert_eq!(find_skill_dirs(&files, &e), vec!["extra/review"]);
    let scanned = entry("custom", Some(OneOrManyStrings::Many(vec!["extra".to_string()])));
    assert_eq!(find_skill_dirs(&files, &scanned), vec!["extra/review"]);
}

#[test]
fn a_plugin_with_no_skills_is_rejected() {
    let content = PluginContent { files: vec![file("README.md")], coords: coords("c1") };
    match plan_plugin_skills(&content, &entry("no-skills", None), "acme-tools") {
        Err(MarketplaceError::NoSkills(n)) => assert_eq!(n, "no-skills"),
        other => panic!("expected NoSkills, got {other:?}"),
    }
}

#[test]
fn a_skill_dir_with_an_invalid_name_is_rejected() {
    let content = PluginContent {
        files: vec![file("skills/bad name/SKILL.md"), file("skills/good/SKILL.md")],
        coords: coords("c1"),
    };
    match plan_plugin_skills(&content, &entry("foo", None), "acme-tools") {
        Err(MarketplaceError::InvalidSkillName(n)) => assert_eq!(n, "bad name"),
        other => panic!("expected InvalidSkillName, got {other:?}"),
    }
}

#[test]
fn planned_skills_carry_their_files_and_provenance() {
    let content = PluginContent {
        files: vec![file("skills/bar/SKILL.md"), file("skills/bar/sub/tool.py")],
        coords: coords("c1"),
    };
    let planned = plan_plugin_skills(&content, &entry("foo", None), "acme-tools").unwrap();
    assert_eq!(planned.len(), 1);
    let p = &planned[0];
    assert_eq!(p.name, "bar");
    assert_eq!(p.dir, "skills/bar");
    let names: Vec<&str> = p.files.iter().map(|f| f.relative_path.as_str()).collect();
    assert_eq!(names, vec!["SKILL.md", "sub/tool.py"]);
    assert_eq!(p.manifest.path, "plugins/foo/skills/bar");
    assert_eq!(p.manifest.commit_sha, "c1");
    assert_eq!(
        p.manifest.plugin,
        Some(PluginProvenance { marketplace: "acme-tools".into(), plugin: "foo".into() })
    );
}

#[test]
fn remove_plugin_deletes_every_skill_of_the_plugin() {
    let installed = vec![
        ("zeta".to_string(), manifest("acme-tools", "foo", "c1")),
        ("alpha".to_string(), manifest("acme-tools", "foo", "c1")),
        ("other".to_string(), manifest("acme-tools", "gadget", "c1")),
    ];
    assert_eq!(remove_plugin(&installed, "foo").unwrap(), vec!["alpha", "zeta"]);
    match remove_plugin(&installed, "nope") {
        Err(MarketplaceError::PluginNotInstalled(n)) => assert_eq!(n, "nope"),
        other => panic!("expected PluginNotInstalled, got {other:?}"),
    }
}

#[test]
fn installed_plugin_marketplaces_routes_updates_by_provenance() {
    let installed = vec![
        ("a".to_string(), manifest("mkt-b", "foo", "c1")),
        ("b".to_string(), manifest("mkt-a", "foo", "c1")),
        ("c".to_string(), manifest("mkt-b", "foo", "c1")),
        ("d".to_string(), manifest("mkt-a", "bar", "c1")),
    ];
    assert_eq!(installed_plugin_marketplaces(&installed, "foo"), vec!["mkt-b", "mkt-a"]);
    assert!(installed_plugin_marketplaces(&installed, "nope").is_empty());
    assert!(plugin_is_installed(&installed, "mkt-a", "bar"));
    assert!(!plugin_is_installed(&installed, "mkt-b", "bar"));
}

#[test]
fn update_swaps_changed_skills_adds_new_ones_and_removes_vanished_ones() {
    let installed = vec![
        ("bar".to_string(), manifest("acme-tools", "foo", "c1")),
        ("old".to_string(), manifest("acme-tools", "foo", "c1")),
    ];
    let content = PluginContent {
        files: vec![file("skills/bar/SKILL.md"), file("skills/baz/SKILL.md")],
        coords: coords("c2"),
    };
    let planned = plan_plugin_skills(&content, &entry("foo", None), "acme-tools").unwrap();
    let (steps, report) = plan_update(&installed, "acme-tools", "foo", &planned, &content.coords);
    assert_eq!(steps, vec![UpdateStep::Swap, UpdateStep::Install]);
    assert_eq!(report.updated, vec!["bar"]);
    assert_eq!(report.added, vec!["baz"]);
    assert_eq!(report.removed, vec!["old"]);
    assert!(report.up_to_date.is_empty());
}

#[test]
fn update_reports_noop_when_the_commit_is_unmoved() {
    let installed = vec![("bar".to_string(), manifest("acme-tools", "foo", "c1"))];
    let content = PluginContent { files: vec![file("skills/bar/SKILL.md")], coords: coords("c1") };
    let planned = plan_plugin_skills(&content, &entry("foo", None), "acme-tools").unwrap();
    let (steps, report) = plan_update(&installed, "acme-tools", "foo", &planned, &content.coords);
    assert_eq!(steps, vec![UpdateStep::UpToDate]);
    assert_eq!(report.up_to_date, vec!["bar"]);
    assert!(report.updated.is_empty() && report.added.is_empty() && report.removed.is_empty());
}

#[test]
fn local_marketplace_edits_always_flow_through_update() {
    let installed = vec![("bar".to_string(), manifest("acme-tools", "foo", ""))];
    let mut local = coords("");
    local.is_local = true;
    let content = PluginContent { files: vec![file("skills/bar/SKILL.md")], coords: local };
    let planned = plan_plugin_skills(&content, &entry("foo", None), "acme-tools").unwrap();
    let (steps, _) = plan_update(&installed, "acme-tools", "foo", &planned, &content.coords);
    assert_eq!(steps, vec![UpdateStep::Swap]);
}

#[test]
fn npm_sources_are_rejected_as_unsupported() {
    let npm = RemotePluginSource::Npm { package: "x".into(), version: None, registry: None };
    match remote_plugin_target("npm-thing", &npm) {
        Err(MarketplaceError::UnsupportedSource { plugin, kind }) => {
            assert_eq!(plugin, "npm-thing");
            assert_eq!(kind, "npm");
        }
        other => panic!("expected UnsupportedSource, got {other:?}"),
    }
}

#[test]
fn github_and_git_subdir_sources_name_their_repository() {
    let gh = RemotePluginSource::Github {
        repo: "acme/gadgets".into(),
        git_ref: Some("v1".into()),
        sha: Some("deadbeef".into()),
    };
    let t = remote_plugin_target("gadget", &gh).unwrap();
    assert_eq!(t.source.host, Host::GitHub);
    assert_eq!(t.source.owner, "acme");
    assert_eq!(t.source.repo, "gadgets");
    assert_eq!(t.source.git_ref.as_deref(), Some("v1"));
    assert_eq!(t.subdir, "");
    assert_eq!(t.sha.as_deref(), Some("deadbeef"));

    let bad = RemotePluginSource::Github { repo: "not-a-repo".into(), git_ref: None, sha: None };
    assert!(matches!(remote_plugin_target("gadget", &bad), Err(MarketplaceError::InvalidGithubRepo(_))));

    let sub = RemotePluginSource::GitSubdir {
        url: "https://gitlab.com/acme/tools.git".into(),
        path: "plugins/x".into(),
        git_ref: None,
        sha: None,
    };
    let t = remote_plugin_target("x", &sub).unwrap();
    assert_eq!(t.source.host, Host::GitLab);
    assert_eq!(t.subdir, "plugins/x");

    let escaping = RemotePluginSource::GitSubdir {
        url: "https://gitlab.com/acme/tools".into(),
        path: "../x".into(),
        git_ref: None,
        sha: None,
    };
    assert!(matches!(remote_plugin_target("x", &escaping), Err(MarketplaceError::Catalog(_))));
}

#[test]
fn a_sha_pinned_plugin_source_skips_ref_resolution() {
    assert!(matches!(
        hosted_ref_plan(&Some("deadbeef".into()), &Some("main".into())),
        RefPlan::Pinned { sha } if sha == "deadbeef"
    ));
    assert!(matches!(hosted_ref_plan(&None, &Some("v2".into())), RefPlan::Ref { git_ref } if git_ref == "v2"));
    assert!(matches!(hosted_ref_plan(&None, &None), RefPlan::DefaultBranch));
}

#[test]
fn a_relative_source_escaping_the_marketplace_root_is_rejected() {
    let local = RegisteredMarketplace {
        name: "local-dev".into(),
        source: MarketplaceSource::Local { path: "/mkt".into() },
    };
    let pin = CatalogPin { commit_sha: None };
    assert!(matches!(
        relative_plugin_target(&local, None, "./../escape", &pin),
        Err(MarketplaceError::Catalog(CatalogError::UnsafeSourcePath(_)))
    ));
    assert!(matches!(
        relative_plugin_target(&local, None, "plugins/x", &pin),
        Err(MarketplaceError::Catalog(CatalogError::InvalidRelativeSource(_)))
    ));
    match relative_plugin_target(&local, None, "./plugins/hello", &pin) {
        Ok(RelativeTarget::Local { dir }) => assert_eq!(dir, "/mkt/plugins/hello"),
        other => panic!("expected a local target, got {other:?}"),
    }
}

#[test]
fn a_relative_source_in_a_remote_marketplace_uses_the_catalog_commit() {
    let remote = RegisteredMarketplace {
        name: "acme-tools".into(),
        source: MarketplaceSource::Remote {
            host: Host::GitHub,
            owner: "acme".into(),
            repo: "plugins".into(),
            path: "".into(),
            git_ref: "main".into(),
        },
    };
    let pin = CatalogPin { commit_sha: Some("mkt1".into()) };
    match relative_plugin_target(&remote, None, "./plugins/foo", &pin) {
        Ok(RelativeTarget::Hosted { owner, repo, repo_path, git_ref, commit_sha, .. }) => {
            assert_eq!(owner, "acme");
            assert_eq!(repo, "plugins");
            assert_eq!(repo_path, "plugins/foo");
            assert_eq!(git_ref, "main");
            assert_eq!(commit_sha, "mkt1");
        }
        other => panic!("expected a hosted target, got {other:?}"),
    }
}

#[test]
fn the_catalog_file_is_found_among_fetched_files() {
    let files = vec![file("README.md"), file("marketplace.json"), file("plugin.json")];
    assert_eq!(find_catalog_file(&files), Some(1));
    assert_eq!(find_catalog_file(&files[..1]), None);
}

#[test]
fn list_available_marks_installed_plugins() {
    let catalog = MarketplaceCatalog {
        name: "acme-tools".into(),
        owner: CatalogOwner { name: "o".into(), email: None },
        description: None,
        metadata: CatalogMetadata { description: None, version: None, plugin_root: None },
        plugins: vec![entry("foo", None), entry("gadget", None)],
    };
    let project = vec![("bar".to_string(), manifest("acme-tools", "foo", "c1"))];
    let global = vec![("bar".to_string(), manifest("acme-tools", "foo", "c1"))];
    assert_eq!(installed_scopes(&project, &global, "acme-tools", "foo"), vec![Scope::Project, Scope::Global]);
    let listed = available_plugins("acme-tools", &catalog, &project, &[]);
    assert_eq!(listed.len(), 2);
    assert_eq!(listed[0].name, "foo");
    assert_eq!(listed[0].installed_scopes, vec![Scope::Project]);
    assert_eq!(listed[1].name, "gadget");
    assert!(listed[1].installed_scopes.is_empty());
}

#[test]
fn listed_paths_that_pick_nothing_fall_back_to_the_default_scan() {
    let files = vec![file("skills/bar/SKILL.md"), file("docs/README.md")];
    let listed = entry("foo", Some(OneOrManyStrings::Many(vec!["docs".to_string(), "./nowhere/".to_string()])));
    assert_eq!(find_skill_dirs(&files, &listed), find_skill_dirs(&files, &entry("foo", None)));
    assert_eq!(find_skill_dirs(&files, &listed), vec!["skills/bar"]);
}

#[test]
fn update_errors_when_the_plugin_is_not_installed() {
    let installed = vec![("bar".to_string(), manifest("acme-tools", "gadget", "c1"))];
    match check_plugin_update(&installed, "acme-tools", "foo") {
        Err(MarketplaceError::PluginNotInstalled(n)) => assert_eq!(n, "foo"),
        other => panic!("expected PluginNotInstalled, got {other:?}"),
    }
    assert!(check_plugin_update(&installed, "acme-tools", "gadget").is_ok());
    assert!(check_plugin_update(&installed, "other-mkt", "gadget").is_err());
}

#[test]
fn a_relative_source_error_names_the_source() {
    let local = RegisteredMarketplace {
        name: "local-dev".into(),
        source: MarketplaceSource::Local { path: "/mkt".into() },
    };
    let pin = CatalogPin { commit_sha: None };
    match relative_plugin_target(&local, None, "./../outside", &pin) {
        Err(MarketplaceError::Catalog(CatalogError::UnsafeSourcePath(s))) => assert_eq!(s, "./../outside"),
        other => panic!("expected UnsafeSourcePath, got {other:?}"),
    }
}
