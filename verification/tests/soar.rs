use pkgforge::package::{
    get_extract_dir, hook_env_vars, is_safe_relative, relative_to, resolve_version_placeholder,
    resolve_version_placeholder_opt, resolve_source, validate_relative_path, HookEnv, InstallMarker,
    LocalPackage, Maintainer, PackageQuery, SourcePick,
};
use pkgforge::release_source::{
    asset_glob, find_matching_asset, parse_version_output, pick_release, resolve_from_releases,
    substitute_placeholders, version_from_release_url, AssetInfo, ReleaseInfo, ReleaseSource,
    ResolvedPackage,
};
use pkgforge::remote::{is_valid_download_url, local_path_from_url};
use pkgforge::soar_config::{
    default_install_patterns, enable_system_mode, get_current_profile, init, is_system_mode,
    set_current_profile, system_root, Config, Environment, Profile, ProgressStyle, RepoInfo,
    Repository, SoarState,
};
use pkgforge::soar_error::{ConfigError, SoarError};
use pkgforge::url_handler::{
    pick_terminal, preferred_terminal_args, terminal_args, terminal_name, TERMINAL_COUNT,
    desktop_entry, escape_exec, parse, validate_spec, UrlRequest, DESKTOP_ENTRY, PACKAGED_EXEC,
    SCHEME_MIME,
};
use pkgforge::url_package::{
    detect_pkg_type, extract_family_from_url, remove_extensions, validate_names, UrlPackage,
};
use pkgforge::asset_name::{parse_filename, strip_platform_words};
use pkgforge::models::Package;
use pkgforge::cli::{
    confirms, display_settings, icon_or, json_enabled, listing_name, parse_default_repos_arg,
    progress_enabled, selection_index, OutputFlags, PackageDetailJson, PackageJson, RepositoryJson,
};
use pkgforge::sandbox::{
    default_read_paths, default_write_paths, read_paths, restricts_network, run_mode, write_paths,
    NetworkConfig, RunMode, SandboxConfig, SandboxedCommand,
};
use pkgforge::soar_db::{
    extract_name_and_contact, narrow_by_pkg_family, narrow_by_pkg_id, supersedes_unordered,
};

// ─── soar:// links ───────────────────────────────────────────────────

fn exec_line(exe: &str) -> String {
    desktop_entry(exe)
        .lines()
        .find_map(|line| line.strip_prefix("Exec=").map(str::to_string))
        .expect("desktop entry has an Exec line")
}

#[test]
fn the_shipped_entry_still_says_what_registering_rewrites() {
    assert!(DESKTOP_ENTRY.contains(PACKAGED_EXEC));
    assert!(DESKTOP_ENTRY.contains(&format!("MimeType={SCHEME_MIME};")));
    assert!(DESKTOP_ENTRY.contains("Terminal=false"));
}

#[test]
fn leaves_an_ordinary_path_unquoted() {
    assert_eq!(exec_line("/usr/bin/soar"), "/usr/bin/soar url %u");
}

#[test]
fn encodes_paths_the_exec_key_would_otherwise_misread() {
    assert_eq!(exec_line("/opt/100%/soar"), "/opt/100%%/soar url %u");
    assert_eq!(
        exec_line("/opt/my apps/soar"),
        "\"/opt/my apps/soar\" url %u"
    );
    assert_eq!(exec_line("/opt/a\"b/soar"), "\"/opt/a\\\\\"b/soar\" url %u");
    assert_eq!(exec_line("/opt/a$b/soar"), "\"/opt/a\\\\$b/soar\" url %u");
    assert_eq!(exec_line("/opt/a`b/soar"), "\"/opt/a\\\\`b/soar\" url %u");
    assert_eq!(
        exec_line("/opt/a\\b/soar"),
        "\"/opt/a\\\\\\\\b/soar\" url %u"
    );
    assert_eq!(exec_line("/opt/a&b/soar"), "\"/opt/a&b/soar\" url %u");
}

#[test]
fn rejects_a_version_that_is_not_there() {
    assert!(validate_spec("ripgrep@").is_err());
    assert!(validate_spec("ripgrep@1.2.3").is_ok());
}

#[test]
fn accepts_the_shapes_a_package_query_can_take() {
    assert_eq!(
        parse("soar://install/ripgrep").unwrap(),
        UrlRequest::Install("ripgrep".into())
    );
    assert_eq!(
        parse("soar://install/bat/bat@0.24.0:bincache").unwrap(),
        UrlRequest::Install("bat/bat@0.24.0:bincache".into())
    );
    assert_eq!(
        parse("soar://install/ripgrep/").unwrap(),
        UrlRequest::Install("ripgrep".into())
    );
}

#[test]
fn rejects_anything_that_could_become_a_flag() {
    for url in [
        "soar://install/--version",
        "soar://install/-y",
        "soar://install/ripgrep --force",
        "soar://install/%2D%2Dforce",
    ] {
        assert!(parse(url).is_err(), "{url} should be rejected");
    }
}

#[test]
fn rejects_shell_and_path_characters() {
    for url in [
        "soar://install/ripgrep;rm -rf /",
        "soar://install/ripgrep$(id)",
        "soar://install/ripgrep`id`",
        "soar://install/../../etc/passwd",
        "soar://install/a/b/c",
        "soar://install/rip grep",
    ] {
        assert!(parse(url).is_err(), "{url} should be rejected");
    }
}

#[test]
fn accepts_the_scheme_in_any_case() {
    for url in [
        "SOAR://install/ripgrep",
        "Soar://install/ripgrep",
        "sOaR://install/ripgrep",
    ] {
        assert_eq!(
            parse(url).unwrap(),
            UrlRequest::Install("ripgrep".into()),
            "{url} should be accepted"
        );
    }
}

#[test]
fn rejects_other_schemes_and_actions() {
    assert!(parse("https://install/ripgrep").is_err());
    assert!(parse("soar://run/ripgrep").is_err());
    assert!(parse("soar://install").is_err());
    assert!(parse("soar://install/").is_err());
}

#[test]
fn rejects_an_overlong_url() {
    let long = format!("soar://install/{}", "a".repeat(600));
    assert!(parse(&long).is_err());
}

#[test]
fn a_rejected_link_says_why() {
    match parse("soar://run/ripgrep") {
        Err(SoarError::Custom(m)) => assert_eq!(m, "Invalid soar:// URL: unknown action `run`"),
        other => panic!("unexpected {other:?}"),
    }
    match parse("soar://install/a b") {
        Err(SoarError::Custom(m)) => {
            assert_eq!(m, "Invalid soar:// URL: `a b` is not a package query")
        }
        other => panic!("unexpected {other:?}"),
    }
    match parse("soar://install/x?y") {
        Err(SoarError::Custom(m)) => assert_eq!(
            m,
            "Invalid soar:// URL: escapes and query strings are not accepted"
        ),
        other => panic!("unexpected {other:?}"),
    }
    // 512 bytes is the limit, counted in bytes rather than characters.
    let at_limit = format!("soar://install/{}", "a".repeat(512 - 15));
    assert!(parse(&at_limit).is_ok());
    let wide = format!("soar://install/a{}", "é".repeat(250));
    assert!(parse(&wide).is_err());
}

#[test]
fn an_exec_path_without_reserved_characters_stays_bare() {
    assert_eq!(escape_exec("/usr/bin/soar"), "/usr/bin/soar");
    assert_eq!(escape_exec("/a%b"), "/a%%b");
    assert_eq!(escape_exec("/a b"), "\"/a b\"");
}

// ─── configuration ───────────────────────────────────────────────────

fn known() -> Vec<RepoInfo> {
    vec![
        RepoInfo {
            name: "soarpkgs".to_string(),
            url_template: "https://meta.example/soarpkgs/{}.json".to_string(),
            pubkey: None,
            desktop_integration: Some(true),
            enabled: Some(true),
            signature_verification: None,
            sync_interval: Some("3h".to_string()),
            platforms: vec!["x86_64-Linux".to_string(), "aarch64-Linux".to_string()],
        },
        RepoInfo {
            name: "bincache".to_string(),
            url_template: "https://meta.example/bincache/{}.json".to_string(),
            pubkey: Some("key".to_string()),
            desktop_integration: Some(false),
            enabled: Some(true),
            signature_verification: Some(true),
            sync_interval: None,
            platforms: vec!["x86_64-Linux".to_string()],
        },
        RepoInfo {
            name: "riscv-only".to_string(),
            url_template: "https://meta.example/r/{}.json".to_string(),
            pubkey: None,
            desktop_integration: None,
            enabled: None,
            signature_verification: None,
            sync_interval: None,
            platforms: vec!["riscv64-Linux".to_string()],
        },
    ]
}

fn env() -> Environment {
    Environment {
        system_mode: false,
        soar_root: None,
        data_home: "/home/u/.local/share".to_string(),
        platform: "x86_64-Linux".to_string(),
        repositories: known(),
    }
}

fn default_config() -> Config {
    Config::default_config(&[], &env())
}

fn repo_named(name: &str) -> Repository {
    Repository {
        name: name.to_string(),
        url: "https://example.com".to_string(),
        desktop_integration: None,
        pubkey: None,
        enabled: Some(true),
        signature_verification: None,
        sync_interval: None,
    }
}

fn key() -> String {
    "soarpkgs-key".to_string()
}

#[test]
fn test_default_config_creation() {
    let config = default_config();

    assert_eq!(config.default_profile, "default");
    assert!(config.profile.iter().any(|(name, _)| name == "default"));
    assert!(config.parallel.unwrap_or(false));
    assert_eq!(config.parallel_limit, Some(4));
    assert_eq!(config.search_limit, Some(20));
    assert_eq!(config.ghcr_concurrency, Some(8));
    assert_eq!(config.cross_repo_updates, Some(false));
}

#[test]
fn test_default_config_with_selected_repos() {
    let config = Config::default_config(&["soarpkgs".to_string()], &env());

    assert!(!config.repositories.is_empty());
    assert!(config.repositories.iter().any(|r| r.name == "soarpkgs"));
    assert_eq!(config.repositories.len(), 1);
}

#[test]
fn the_default_configuration_lives_under_the_soar_root() {
    let config = default_config();
    assert_eq!(config.profile[0].1.root_path, "/home/u/.local/share/soar");
    assert_eq!(config.bin_path.as_deref(), Some("/home/u/.local/share/soar/bin"));
    assert_eq!(config.repositories.len(), 2);
    assert_eq!(config.repositories[0].url, "https://meta.example/soarpkgs/x86_64-Linux.json");
    let mut e = env();
    e.system_mode = true;
    let config = Config::default_config(&[], &e);
    assert_eq!(config.db_path.as_deref(), Some("/opt/soar/db"));
    assert!(config.is_system());
    e.soar_root = Some("/srv/soar".to_string());
    let config = Config::default_config(&[], &e);
    assert_eq!(config.cache_path.as_deref(), Some("/srv/soar/cache"));
    assert_eq!(system_root(), "/opt/soar");
}

#[test]
fn test_config_resolve_missing_default_profile() {
    let mut config = default_config();
    config.default_profile = "nonexistent".to_string();

    let result = config.resolve(&key());
    assert!(matches!(result, Err(ConfigError::MissingDefaultProfile(_))));
}

#[test]
fn test_config_resolve_rejects_traversal_repo_name() {
    for name in ["..", "a/b", "/home/user/Documents", "", "."] {
        let mut config = default_config();
        config.repositories.push(repo_named(name));

        let result = config.resolve(&key());
        assert!(
            matches!(result, Err(ConfigError::InvalidRepositoryName(_))),
            "name {name:?} should be rejected"
        );
    }
}

#[test]
fn test_config_resolve_accepts_normal_repo_name() {
    let mut config = default_config();
    config.repositories.push(repo_named("my-repo"));

    assert!(config.resolve(&key()).is_ok());
}

#[test]
fn test_config_resolve_reserved_repo_name() {
    let mut config = default_config();
    config.repositories.push(repo_named("local"));

    let result = config.resolve(&key());
    assert!(matches!(result, Err(ConfigError::ReservedRepositoryName)));
}

#[test]
fn test_config_resolve_signature_verification_without_pubkey() {
    let mut config = default_config();
    let mut repo = repo_named("needs-key");
    repo.signature_verification = Some(true);
    config.repositories.push(repo);

    let result = config.resolve(&key());
    assert!(matches!(result, Err(ConfigError::MissingPubkey(_))));
}

#[test]
fn test_config_resolve_duplicate_repo() {
    let mut config = default_config();
    config.repositories.push(repo_named("duplicate"));
    let mut second = repo_named("duplicate");
    second.url = "https://example2.com".to_string();
    config.repositories.push(second);

    let result = config.resolve(&key());
    assert!(matches!(
        result,
        Err(ConfigError::DuplicateRepositoryName(_))
    ));
}

#[test]
fn test_config_resolve_sets_defaults() {
    let mut config = default_config();
    config.ghcr_concurrency = None;
    config.search_limit = None;
    config.cross_repo_updates = None;
    config.install_patterns = None;

    config.resolve(&key()).unwrap();

    assert_eq!(config.ghcr_concurrency, Some(8));
    assert_eq!(config.search_limit, Some(20));
    assert_eq!(config.cross_repo_updates, Some(false));
    assert!(config.install_patterns.is_some());
}

#[test]
fn resolving_gives_soarpkgs_its_key_and_enables_repositories() {
    let mut config = default_config();
    let mut quiet = repo_named("quiet");
    quiet.enabled = None;
    config.repositories.push(quiet);
    config.resolve(&key()).unwrap();
    assert_eq!(config.repositories[0].pubkey.as_deref(), Some("soarpkgs-key"));
    assert_eq!(config.repositories[1].pubkey.as_deref(), Some("key"));
    assert_eq!(config.repositories[2].enabled, Some(true));
}

#[test]
fn test_get_profile() {
    let config = default_config();

    let profile = config.get_profile("default");
    assert!(profile.is_ok());

    let missing = config.get_profile("nonexistent");
    assert!(matches!(missing, Err(ConfigError::MissingProfile(_))));
}

#[test]
fn test_get_repository() {
    let config = default_config();

    if let Some(repo) = config.repositories.first() {
        let found = config.get_repository(&repo.name);
        assert!(found.is_some());
    }

    let missing = config.get_repository("nonexistent");
    assert!(missing.is_none());
}

#[test]
fn test_has_desktop_integration() {
    let mut config = default_config();

    config.desktop_integration = Some(true);
    assert!(config.has_desktop_integration("any_repo"));

    config.desktop_integration = Some(false);
    assert!(!config.has_desktop_integration("any_repo"));

    config.desktop_integration = None;
    let mut repo = repo_named("test_repo");
    repo.desktop_integration = Some(true);
    config.repositories.push(repo);
    assert!(config.has_desktop_integration("test_repo"));
    assert!(!config.has_desktop_integration("bincache"));
    assert!(!config.has_desktop_integration("nowhere"));
}

#[test]
fn test_get_desktop_path() {
    let config = default_config();
    let desktop = config.get_desktop_path(None, "/home/u/.local/share/applications");
    assert!(desktop.ends_with("applications"));

    let mut config = default_config();
    config.desktop_path = Some("/custom/desktop/path".to_string());
    let desktop = config.get_desktop_path(None, "/home/u/.local/share/applications");
    assert_eq!(desktop, "/custom/desktop/path");
}

#[test]
fn test_config_path_env_override() {
    let config = default_config();
    let bin_path = config.get_bin_path(Some("/custom/bin"), None).unwrap();
    assert_eq!(bin_path, "/custom/bin");
}

#[test]
fn display_settings_default_to_modern_with_icons() {
    let config = default_config();
    let d = config.display();
    assert_eq!(d.progress_style(), ProgressStyle::Modern);
    assert!(d.icons());
    assert!(d.spinners());
}

#[test]
fn the_state_tracks_mode_and_profile() {
    let mut state = SoarState {
        config: None,
        fallback: default_config(),
        current_profile: None,
        system_mode: false,
        config_path: "/home/u/.config/soar/config.toml".to_string(),
    };
    assert!(!is_system_mode(&state));
    assert_eq!(get_current_profile(&state), "default");
    assert!(matches!(
        set_current_profile(&mut state, "other"),
        Err(ConfigError::InvalidProfile(_))
    ));
    set_current_profile(&mut state, "default").unwrap();
    assert_eq!(state.current_profile.as_deref(), Some("default"));
    enable_system_mode(&mut state);
    assert!(is_system_mode(&state));
    assert_eq!(state.config_path, "/etc/soar/config.toml");
    let mut broken = default_config();
    broken.default_profile = "gone".to_string();
    assert!(init(&mut state, broken, &key()).is_err());
    assert!(state.config.is_none());
    init(&mut state, default_config(), &key()).unwrap();
    assert!(state.config.as_ref().unwrap().system_mode);
}

#[test]
fn test_error_display() {
    let err = ConfigError::ConfigAlreadyExists;
    assert_eq!(err.message(), "Configuration file already exists");

    let err = ConfigError::InvalidProfile("test".to_string());
    assert_eq!(err.message(), "Invalid profile: test");

    let err = ConfigError::DuplicateRepositoryName("duplicate".to_string());
    assert_eq!(err.message(), "Duplicate repository name: duplicate");
}

#[test]
fn test_profile_creation() {
    let profile = Profile {
        root_path: "/test/root".to_string(),
        packages_path: Some("/test/packages".to_string()),
    };

    assert_eq!(profile.root_path, "/test/root");
    assert_eq!(profile.packages_path, Some("/test/packages".to_string()));
}

#[test]
fn test_profile_get_packages_path_explicit() {
    let profile = Profile {
        root_path: "/test/root".to_string(),
        packages_path: Some("/custom/packages".to_string()),
    };

    let path = profile.get_packages_path(None);
    assert!(path.ends_with("packages"));
}

#[test]
fn test_profile_get_packages_path_default() {
    let profile = Profile {
        root_path: "/test/root".to_string(),
        packages_path: None,
    };

    let path = profile.get_packages_path(None);
    assert!(path.ends_with("packages"));
    assert_eq!(path, "/test/root/packages");
}

#[test]
fn test_profile_get_root_path_env_override() {
    let profile = Profile {
        root_path: "/test/root".to_string(),
        packages_path: None,
    };

    let path = profile.get_root_path(Some("/custom/root"));
    assert_eq!(path, "/custom/root");
    assert_eq!(profile.get_cache_path(None), "/test/root/cache");
}

#[test]
fn test_default_install_patterns() {
    let patterns = default_install_patterns();

    assert_eq!(patterns.len(), 4);
    assert!(patterns.contains(&"!*.log".to_string()));
    assert!(patterns.contains(&"!SBUILD".to_string()));
    assert!(patterns.contains(&"!*.json".to_string()));
    assert!(patterns.contains(&"!*.version".to_string()));
}

// ─── package records ─────────────────────────────────────────────────

#[test]
fn test_resolve_version_placeholder() {
    assert_eq!(
        resolve_version_placeholder("https://example.com/pkg?tag={{version}}-x86_64", "v1.0.0"),
        "https://example.com/pkg?tag=v1.0.0-x86_64"
    );
}

#[test]
fn test_resolve_version_placeholder_multiple() {
    assert_eq!(
        resolve_version_placeholder("ghcr.io/user/pkg:{{version}}-{{version}}", "v2.0.0"),
        "ghcr.io/user/pkg:v2.0.0-v2.0.0"
    );
}

#[test]
fn test_resolve_version_placeholder_none() {
    assert_eq!(
        resolve_version_placeholder("https://example.com/static-url", "v1.0.0"),
        "https://example.com/static-url"
    );
}

#[test]
fn test_resolve_version_placeholder_opt() {
    assert_eq!(
        resolve_version_placeholder_opt(Some("ghcr.io/pkg:{{version}}"), "v1.0.0"),
        Some("ghcr.io/pkg:v1.0.0".to_string())
    );
    assert_eq!(resolve_version_placeholder_opt(None, "v1.0.0"), None);
}

#[test]
fn alias_beside_its_target_is_just_the_name() {
    assert_eq!(relative_to("bin/fdfind", "bin/fd").unwrap(), "fd");
}

#[test]
fn alias_in_another_directory_climbs_out() {
    assert_eq!(
        relative_to("share/man/man1/fdfind.1", "share/man/man1/fd.1").unwrap(),
        "fd.1"
    );
    assert_eq!(relative_to("bin/fd", "libexec/fd").unwrap(), "../libexec/fd");
    assert_eq!(relative_to("fd", "bin/fd").unwrap(), "bin/fd");
}

#[test]
fn an_alias_onto_its_own_directory_points_nowhere() {
    assert_eq!(relative_to("a/b", "a"), None);
    assert_eq!(relative_to("a/b/c", "a/x/y").unwrap(), "../x/y");
}

#[test]
fn only_inner_relative_paths_are_safe() {
    assert!(is_safe_relative("bin/fd"));
    assert!(is_safe_relative("a/./b"));
    assert!(!is_safe_relative(""));
    assert!(!is_safe_relative("/bin/fd"));
    assert!(!is_safe_relative("./fd"));
    assert!(!is_safe_relative("."));
    assert!(!is_safe_relative("a/../../b"));
}

#[test]
fn markers_match_their_own_package_only() {
    let marker = InstallMarker {
        pkg_id: None,
        version: "1.0".to_string(),
        bsum: Some("abc".to_string()),
    };
    let package = |pkg_id: Option<&str>, version: &str, bsum: Option<&str>| Package {
        pkg_id: pkg_id.map(str::to_string),
        version: version.to_string(),
        bsum: bsum.map(str::to_string),
        ..Default::default()
    };
    assert!(marker.matches_package(&package(None, "1.0", Some("abc"))));
    assert!(!marker.matches_package(&package(None, "1.1", Some("abc"))));
    assert!(!marker.matches_package(&package(Some("x"), "1.0", Some("abc"))));
    assert!(!marker.matches_package(&package(None, "1.0", None)));
}

#[test]
fn hooks_see_the_package_they_run_for() {
    let env = HookEnv {
        install_dir: "/p/fd",
        pkg_name: "fd",
        pkg_id: "fd#bin",
        pkg_version: "9.0",
    };
    let vars = hook_env_vars(&env, "/home/u/.local/bin");
    assert_eq!(vars[0], ("INSTALL_DIR".to_string(), "/p/fd".to_string()));
    assert_eq!(vars[1], ("BIN_DIR".to_string(), "/home/u/.local/bin".to_string()));
    assert_eq!(vars[4], ("PKG_VERSION".to_string(), "9.0".to_string()));
    assert_eq!(vars.len(), 5);
}

#[test]
fn maintainers_show_their_contact() {
    let m = Maintainer {
        name: "Ann".to_string(),
        contact: "ann@example.com".to_string(),
    };
    assert_eq!(m.display(), "Ann (ann@example.com)");
    assert_eq!(get_extract_dir("/p/fd"), "/p/fd/SOAR_AUTOEXTRACT");
}

#[test]
fn parses_every_supported_shape() {
    let q = PackageQuery::parse("ripgrep").unwrap();
    assert_eq!(q.name.as_deref(), Some("ripgrep"));
    assert_eq!(q.family, None);

    let q = PackageQuery::parse("bat/bat@0.24.0:bincache").unwrap();
    assert_eq!(q.family.as_deref(), Some("bat"));
    assert_eq!(q.name.as_deref(), Some("bat"));
    assert_eq!(q.version.as_deref(), Some("0.24.0"));
    assert_eq!(q.repo_name.as_deref(), Some("bincache"));
}

#[test]
fn a_third_segment_is_not_a_query() {
    assert!(PackageQuery::parse("a/b/c").is_err());
}

#[test]
fn queries_are_trimmed_lowercased_and_checked() {
    let q = PackageQuery::parse("  RipGrep#all:Repo ").unwrap();
    assert_eq!(q.name.as_deref(), Some("ripgrep"));
    assert_eq!(q.pkg_id.as_deref(), Some("all"));
    assert_eq!(q.repo_name.as_deref(), Some("repo"));
    assert!(matches!(
        PackageQuery::parse("   "),
        Err(SoarError::InvalidPackageQuery(_))
    ));
    assert!(matches!(
        PackageQuery::parse("#all"),
        Err(SoarError::InvalidPackageQuery(m)) if m == "For all, package name is required."
    ));
    assert!(matches!(
        PackageQuery::parse("@1.0"),
        Err(SoarError::InvalidPackageQuery(m)) if m == "Either package name or pkg_id is required"
    ));
    let q = PackageQuery::parse("x@1/2").unwrap();
    assert_eq!(q.version.as_deref(), Some("1/2"));
}

// ─── remote sources ──────────────────────────────────────────────────

#[test]
fn test_local_path_from_url() {
    assert_eq!(
        local_path_from_url("file:///home/user/foo.AppImage").as_deref(),
        Some("/home/user/foo.AppImage")
    );
    assert_eq!(local_path_from_url("https://example.com/foo"), None);
}

#[test]
fn test_is_valid_download_url() {
    assert!(is_valid_download_url("https://example.com/file.AppImage"));
    assert!(is_valid_download_url("http://example.com/file"));
    assert!(is_valid_download_url(
        "https://github.com/user/repo/releases/download/v1.0/app.zip"
    ));

    assert!(!is_valid_download_url(""));
    assert!(!is_valid_download_url("   "));
    assert!(!is_valid_download_url("https://"));
    assert!(!is_valid_download_url("https://?query=1"));
    assert!(!is_valid_download_url("not-a-url"));
    assert!(!is_valid_download_url("ftp://example.com/file"));
    assert!(!is_valid_download_url("file:///path/to/file"));
}

#[test]
fn test_is_url() {
    assert!(UrlPackage::is_url("https://example.com/file.AppImage"));
    assert!(UrlPackage::is_url("http://example.com/file.AppImage"));
    assert!(UrlPackage::is_url("  HTTPS://example.com/file  "));
    assert!(!UrlPackage::is_url("example.com/file.AppImage"));
    assert!(!UrlPackage::is_url("curl"));
    assert!(!UrlPackage::is_url("jq#all"));
}

#[test]
fn test_extract_family_from_url() {
    assert_eq!(
        extract_family_from_url("https://github.com/pkgforge/soar/releases/file"),
        Some("github.com.pkgforge.soar".to_string())
    );
    assert_eq!(
        extract_family_from_url("https://gitlab.com/user/project/-/releases"),
        Some("gitlab.com.user.project".to_string())
    );
    assert_eq!(
        extract_family_from_url("https://example.com/foo/bar/baz"),
        Some("example.com.foo.bar".to_string())
    );
    assert_eq!(
        extract_family_from_url("https://example.com/app"),
        Some("example.com.app".to_string())
    );
    assert_eq!(extract_family_from_url("https://example.com"), None);
    assert_eq!(extract_family_from_url("ftp://example.com/a"), None);
    assert_eq!(
        extract_family_from_url("HTTPS://Example.COM/Foo"),
        Some("example.com.foo".to_string())
    );
}

#[test]
fn test_detect_pkg_type() {
    assert_eq!(
        detect_pkg_type("app.AppImage"),
        Some("appimage".to_string())
    );
    assert_eq!(
        detect_pkg_type("app.FlatImage"),
        Some("flatimage".to_string())
    );
    assert_eq!(detect_pkg_type("app.tar.gz"), Some("archive".to_string()));
    assert_eq!(detect_pkg_type("app"), None);
    assert_eq!(detect_pkg_type("app.NixAppImage"), Some("nixappimage".to_string()));
}

#[test]
fn known_extensions_come_off() {
    assert_eq!(remove_extensions("tool-1.0.tar.gz"), "tool-1.0");
    assert_eq!(remove_extensions("App.AppImage"), "App");
    assert_eq!(remove_extensions("tool"), "tool");
    assert!(validate_names("ok", None, Some("a.b")).is_ok());
    assert!(validate_names("..", None, None).is_err());
    assert!(validate_names("ok", Some("a/b"), None).is_err());
}

#[test]
fn test_is_ghcr() {
    assert!(UrlPackage::is_ghcr("ghcr.io/org/repo:tag"));
    assert!(UrlPackage::is_ghcr("ghcr.io/org/repo@sha256:abc123"));
    assert!(UrlPackage::is_ghcr("ghcr.io/org/repo"));
    assert!(UrlPackage::is_ghcr("  GHCR.IO/org/repo:tag  "));
    assert!(!UrlPackage::is_ghcr("docker.io/org/repo:tag"));
    assert!(!UrlPackage::is_ghcr("https://ghcr.io/org/repo"));
    assert!(!UrlPackage::is_ghcr("org/repo:tag"));
}

#[test]
fn test_is_remote() {
    assert!(UrlPackage::is_remote("https://example.com/file.AppImage"));
    assert!(UrlPackage::is_remote("http://example.com/file.AppImage"));
    assert!(UrlPackage::is_remote("ghcr.io/org/repo:tag"));
    assert!(UrlPackage::is_remote("ghcr.io/org/repo"));
    assert!(!UrlPackage::is_remote("org/repo:tag"));
    assert!(!UrlPackage::is_remote("curl"));
}

// ─── release sources ─────────────────────────────────────────────────

#[test]
fn test_release_source_from_resolved_github() {
    let pkg = ResolvedPackage {
        name: "test".to_string(),
        github: Some("user/repo".to_string()),
        asset_pattern: Some("*.AppImage".to_string()),
        include_prerelease: Some(true),
        ..Default::default()
    };

    let source = ReleaseSource::from_resolved(&pkg).unwrap();
    match source {
        ReleaseSource::GitHub {
            repo,
            asset_pattern,
            include_prerelease,
            tag_pattern,
            ..
        } => {
            assert_eq!(repo, "user/repo");
            assert_eq!(asset_pattern, "*.AppImage");
            assert!(include_prerelease);
            assert!(tag_pattern.is_none());
        }
        _ => panic!("Expected GitHub source"),
    }
}

#[test]
fn test_release_source_from_resolved_gitlab() {
    let pkg = ResolvedPackage {
        name: "test".to_string(),
        gitlab: Some("group/project".to_string()),
        asset_pattern: Some("*.tar.gz".to_string()),
        ..Default::default()
    };

    let source = ReleaseSource::from_resolved(&pkg).unwrap();
    match source {
        ReleaseSource::GitLab {
            repo,
            asset_pattern,
            include_prerelease,
            tag_pattern,
            ..
        } => {
            assert_eq!(repo, "group/project");
            assert_eq!(asset_pattern, "*.tar.gz");
            assert!(!include_prerelease);
            assert!(tag_pattern.is_none());
        }
        _ => panic!("Expected GitLab source"),
    }
}

#[test]
fn test_release_source_from_resolved_none() {
    let pkg = ResolvedPackage {
        name: "test".to_string(),
        url: Some("https://example.com/file".to_string()),
        ..Default::default()
    };

    assert!(ReleaseSource::from_resolved(&pkg).is_none());
}

#[test]
fn test_release_source_requires_asset_pattern() {
    let pkg = ResolvedPackage {
        name: "test".to_string(),
        github: Some("user/repo".to_string()),
        asset_pattern: None,
        ..Default::default()
    };

    assert!(ReleaseSource::from_resolved(&pkg).is_none());
}

#[test]
fn a_github_download_names_the_releases_it_came_from() {
    let source = ReleaseSource::from_download_url(
        "https://github.com/owner/repo/releases/download/\
         1.2.3-abcdef%402026-04-01_1775061744/\
         tool-1.2.3-abcdef-linux-x86_64.AppImage",
    )
    .unwrap();
    match source {
        ReleaseSource::GitHub {
            repo,
            asset_pattern,
            ..
        } => {
            assert_eq!(repo, "owner/repo");
            assert_eq!(asset_pattern, "tool-*-linux-x86_64.AppImage");
        }
        other => panic!("expected GitHub, got {other:?}"),
    }
}

#[test]
fn the_version_comes_out_of_the_asset_name() {
    assert_eq!(
        asset_glob(
            "1.2.3-1@2026-08-01_1785586116",
            "tool-1.2.3-1-linux-x86_64.AppImage"
        ),
        "tool-*-linux-x86_64.AppImage"
    );
    assert_eq!(
        asset_glob("v1.2.3", "tool-1.2.3-x86_64-unknown-linux-musl.tar.gz"),
        "tool-*-x86_64-unknown-linux-musl.tar.gz"
    );
    assert_eq!(
        asset_glob("nightly", "tool-x86_64.AppImage"),
        "tool-x86_64.AppImage"
    );
}

#[test]
fn a_url_no_forge_publishes_releases_for_answers_nothing() {
    assert!(ReleaseSource::from_download_url("https://example.com/app.AppImage").is_none());
    assert!(ReleaseSource::from_download_url(
        "https://github.com/owner/repo/archive/refs/tags/v1.0.tar.gz"
    )
    .is_none());
}

#[test]
fn a_gitlab_download_and_its_version() {
    let url = "https://gitlab.com/g/p/-/releases/v2.1.0/downloads/p-2.1.0-x86_64.AppImage";
    match ReleaseSource::from_download_url(url).unwrap() {
        ReleaseSource::GitLab { repo, asset_pattern, .. } => {
            assert_eq!(repo, "g/p");
            assert_eq!(asset_pattern, "p-*-x86_64.AppImage");
        }
        other => panic!("expected GitLab, got {other:?}"),
    }
    assert_eq!(version_from_release_url(url).as_deref(), Some("2.1.0"));
    assert_eq!(
        version_from_release_url("https://github.com/o/r/releases/download/nightly/x"),
        None
    );
    assert_eq!(
        version_from_release_url("https://github.com/o/r/releases/download/v1.0%40abc/x").as_deref(),
        Some("1.0")
    );
}

#[test]
fn a_version_command_reports_up_to_three_lines() {
    let r = parse_version_output("  1.2.3 \nhttps://example.com/x.AppImage\n 4096 \n").unwrap();
    assert_eq!(r.version, "1.2.3");
    assert_eq!(r.download_url.as_deref(), Some("https://example.com/x.AppImage"));
    assert_eq!(r.size, Some(4096));
    let r = parse_version_output("1.0\nnot a url\nbig").unwrap();
    assert_eq!(r.download_url, None);
    assert_eq!(r.size, None);
    assert!(matches!(parse_version_output("\n1.0"), Err(SoarError::Custom(_))));
    assert!(matches!(parse_version_output(""), Err(SoarError::Custom(_))));
}

// ─── picking a release and its asset ─────────────────────────────────

fn asset(name: &str) -> AssetInfo {
    AssetInfo {
        name: name.to_string(),
        url: format!("https://example.com/dl/{name}"),
        size: Some(name.len() as u64),
    }
}

fn release(tag: &str, prerelease: bool, names: &[&str]) -> ReleaseInfo {
    ReleaseInfo {
        tag: tag.to_string(),
        prerelease,
        assets: names.iter().map(|n| asset(n)).collect(),
    }
}

fn custom(e: SoarError) -> String {
    match e {
        SoarError::Custom(m) => m,
        other => panic!("unexpected error {other:?}"),
    }
}

#[test]
fn the_newest_stable_release_is_picked() {
    let rs = vec![
        release("v2.0.0-rc1", true, &[]),
        release("v1.9.0", false, &[]),
        release("v1.8.0", false, &[]),
    ];
    assert_eq!(pick_release("o/r", &rs, false, None, None).unwrap(), 1);
    assert_eq!(pick_release("o/r", &rs, true, None, None).unwrap(), 0);
}

#[test]
fn a_tag_pattern_narrows_the_releases() {
    let rs = vec![
        release("nightly", false, &[]),
        release("v1.2.0", false, &[]),
    ];
    assert_eq!(pick_release("o/r", &rs, false, Some("v*"), None).unwrap(), 1);
    let e = pick_release("o/r", &rs, false, Some("x*"), None).unwrap_err();
    assert_eq!(custom(e), "No releases found for o/r matching tag pattern 'x*'");
}

#[test]
fn a_version_matches_with_or_without_its_v() {
    let rs = vec![release("v1.2.0", false, &[]), release("1.1.0", true, &[])];
    assert_eq!(pick_release("o/r", &rs, false, None, Some("1.2.0")).unwrap(), 0);
    assert_eq!(pick_release("o/r", &rs, false, None, Some("v1.1.0")).unwrap(), 1);
    let e = pick_release("o/r", &rs, false, None, Some("3.0")).unwrap_err();
    assert_eq!(custom(e), "No release found for o/r with version '3.0'");
    let e = pick_release("o/r", &Vec::new(), false, None, None).unwrap_err();
    assert_eq!(custom(e), "No releases found for o/r");
}

#[test]
fn the_first_matching_asset_is_found() {
    let assets = vec![asset("tool.tar.gz"), asset("tool-x86_64.AppImage"), asset("b.AppImage")];
    assert_eq!(find_matching_asset(&assets, "*.AppImage").unwrap(), 1);
    let e = find_matching_asset(&assets, "*.deb").unwrap_err();
    assert_eq!(
        custom(e),
        "No asset matching pattern '*.deb' found. Available: tool.tar.gz, tool-x86_64.AppImage, b.AppImage"
    );
    let e = find_matching_asset(&Vec::new(), "*").unwrap_err();
    assert_eq!(custom(e), "No assets found in release");
}

#[test]
fn placeholders_are_substituted() {
    let map = vec![("x86_64".to_string(), "amd64".to_string())];
    assert_eq!(
        substitute_placeholders("app-{version}-{os}-{arch}.tgz", Some("v1.0"), Some(&map), "x86_64", "linux"),
        "app-1.0-linux-amd64.tgz"
    );
    assert_eq!(
        substitute_placeholders("app-{version}-{arch}", None, None, "aarch64", "linux"),
        "app-{version}-aarch64"
    );
    assert_eq!(
        substitute_placeholders("{arch}", Some("2"), Some(&map), "aarch64", "linux"),
        "aarch64"
    );
}

#[test]
fn a_release_resolves_to_its_matching_asset() {
    let rs = vec![
        release("v2.0.0-rc1", true, &["app-2.0.0-rc1-x86_64.AppImage"]),
        release("v1.9.0", false, &["app-1.9.0-aarch64.AppImage", "app-1.9.0-x86_64.AppImage"]),
    ];
    let r = resolve_from_releases(
        "o/r", &rs, "app-{version}-{arch}.AppImage", false, None, None, None, "x86_64", "linux",
    )
    .unwrap();
    assert_eq!(r.version, "v1.9.0");
    assert_eq!(r.download_url, "https://example.com/dl/app-1.9.0-x86_64.AppImage");
    assert_eq!(r.size, Some("app-1.9.0-x86_64.AppImage".len() as u64));

    let e = resolve_from_releases(
        "o/r", &rs, "*.deb", true, None, None, None, "x86_64", "linux",
    )
    .unwrap_err();
    assert_eq!(
        custom(e),
        "No asset matching pattern '*.deb' found. Available: app-2.0.0-rc1-x86_64.AppImage"
    );
    let e = resolve_from_releases(
        "o/r", &rs, "*", false, None, Some("0.1"), None, "x86_64", "linux",
    )
    .unwrap_err();
    assert_eq!(custom(e), "No release found for o/r with version '0.1'");
}

// ─── packages from URLs and registry references ──────────────────────

#[test]
fn test_parse_with_overrides() {
    let url = "https://github.com/user/repo/releases/app.AppImage";
    let pkg = UrlPackage::from_url(url, Some("myapp"), Some("2.0.0"), None, None).unwrap();

    assert_eq!(pkg.pkg_name, "myapp");
    assert_eq!(pkg.version, "2.0.0");
    assert_eq!(pkg.pkg_family.as_deref(), Some("github.com.user.repo"));
}

#[test]
fn test_parse_with_pkg_type_override() {
    let url = "https://example.com/downloads/app";
    let pkg = UrlPackage::from_url(url, Some("myapp"), Some("1.0.0"), Some("appimage"), None)
        .unwrap();

    assert_eq!(pkg.pkg_name, "myapp");
    assert_eq!(pkg.version, "1.0.0");
    assert_eq!(pkg.pkg_type, Some("appimage".to_string()));
    assert_eq!(pkg.pkg_family.as_deref(), Some("example.com.downloads.app"));
}

#[test]
fn a_package_may_be_named_after_a_platform() {
    let (name, ver) = parse_filename("windows-1.0-x86_64.AppImage");
    assert_eq!(name, "windows");
    assert_eq!(ver, "1.0");

    let (name, ver) = parse_filename("something_linux-1.0-x86_64.tar.gz");
    assert_eq!(name, "something_linux");
    assert_eq!(ver, "1.0");

    let (name, _) = parse_filename("linuxdeploy-x86_64.AppImage");
    assert_eq!(name, "linuxdeploy");

    let (name, ver) = parse_filename("tool-1.0-windows-x86_64.zip");
    assert_eq!(name, "tool");
    assert_eq!(ver, "1.0");
}

#[test]
fn test_parse_various_filenames() {
    let (name, ver) = parse_filename("myapp-2.0.1-linux-arm64.AppImage");
    assert_eq!(name, "myapp");
    assert_eq!(ver, "2.0.1");

    let (name, ver) = parse_filename("app-v2.0.0.AppImage");
    assert_eq!(name, "app");
    assert_eq!(ver, "2.0.0");

    let (name, ver) = parse_filename("myapp_1.2.3.AppImage");
    assert_eq!(name, "myapp");
    assert_eq!(ver, "1.2.3");

    let (name, ver) = parse_filename("eza_x86_64-unknown-linux-musl.tar.gz");
    assert_eq!(name, "eza");
    assert_eq!(ver, "unknown");

    let (name, ver) = parse_filename("ripgrep-15.2.0-x86_64-unknown-linux-musl.tar.gz");
    assert_eq!(name, "ripgrep");
    assert_eq!(ver, "15.2.0");

    let (name, ver) = parse_filename("simple.AppImage");
    assert_eq!(name, "simple");
    assert_eq!(ver, "unknown");
}

#[test]
fn test_ghcr_with_tag() {
    let ghcr = "ghcr.io/pkgforge/soar:v0.8.1";
    let pkg = UrlPackage::from_ghcr(ghcr, None, None, None, None).unwrap();

    assert_eq!(pkg.pkg_name, "soar");
    assert_eq!(pkg.version, "0.8.1");
    assert_eq!(pkg.pkg_family.as_deref(), Some("pkgforge.soar"));
    assert!(pkg.is_ghcr);
}

#[test]
fn test_ghcr_with_digest() {
    let ghcr = "ghcr.io/org/repo@sha256:deadbeef1234567890";
    let pkg = UrlPackage::from_ghcr(ghcr, None, None, None, None).unwrap();

    assert_eq!(pkg.pkg_name, "repo");
    assert_eq!(pkg.version, "sha256:deadbeef1234567890");
    assert_eq!(pkg.pkg_family.as_deref(), Some("org.repo"));
    assert!(pkg.is_ghcr);
}

#[test]
fn test_ghcr_without_tag() {
    let ghcr = "ghcr.io/org/package";
    let pkg = UrlPackage::from_ghcr(ghcr, None, None, None, None).unwrap();

    assert_eq!(pkg.pkg_name, "package");
    assert_eq!(pkg.version, "latest");
    assert_eq!(pkg.pkg_family.as_deref(), Some("org.package"));
    assert!(pkg.is_ghcr);
}

#[test]
fn test_ghcr_nested_package() {
    let ghcr = "ghcr.io/org/team/repo:1.0";
    let pkg = UrlPackage::from_ghcr(ghcr, None, None, None, None).unwrap();

    assert_eq!(pkg.pkg_name, "repo");
    assert_eq!(pkg.version, "1.0");
    assert_eq!(pkg.pkg_family.as_deref(), Some("org.team.repo"));
    assert!(pkg.is_ghcr);
}

#[test]
fn test_ghcr_with_overrides() {
    let ghcr = "ghcr.io/org/repo:v1.0";
    let pkg = UrlPackage::from_ghcr(ghcr, Some("myapp"), Some("2.0.0"), None, Some("custom-id"))
        .unwrap();

    assert_eq!(pkg.pkg_name, "myapp");
    assert_eq!(pkg.version, "2.0.0");
    assert_eq!(pkg.pkg_id.as_deref(), Some("custom-id"));
    assert!(pkg.is_ghcr);
}

#[test]
fn test_ghcr_rejects_traversal_overrides() {
    let ghcr = "ghcr.io/org/repo:v1.0";

    assert!(UrlPackage::from_ghcr(ghcr, Some("../../evil"), None, None, None).is_err());
    assert!(UrlPackage::from_ghcr(ghcr, None, None, None, Some("../../evil")).is_err());
    assert!(UrlPackage::from_ghcr(ghcr, None, None, None, Some("/abs/evil")).is_err());
    assert!(UrlPackage::from_ghcr(ghcr, Some(".."), None, None, None).is_err());
}

#[test]
fn test_url_rejects_traversal_overrides() {
    let url = "https://github.com/user/repo/releases/download/v1.0/app";

    assert!(UrlPackage::from_url(url, Some("../../evil"), None, None, None).is_err());
    assert!(UrlPackage::from_url(url, None, None, None, Some("../../evil")).is_err());
    assert!(UrlPackage::from_url(url, None, None, None, Some("a/b")).is_err());
}

fn custom_message(e: SoarError) -> String {
    match e {
        SoarError::Custom(m) => m,
        other => panic!("unexpected error {other:?}"),
    }
}

#[test]
fn a_release_download_names_its_package_and_version() {
    let url = "https://github.com/pkgforge/soar/releases/download/v0.8.1/soar-0.8.1-x86_64-linux";
    let pkg = UrlPackage::from_url(url, None, None, None, None).unwrap();
    assert_eq!(pkg.pkg_name, "soar");
    assert_eq!(pkg.version, "0.8.1");
    assert_eq!(pkg.pkg_family.as_deref(), Some("github.com.pkgforge.soar"));
    assert_eq!(pkg.pkg_type, None);
    assert!(!pkg.is_ghcr);
    assert_eq!(pkg.url, url);
}

#[test]
fn the_release_tag_wins_over_the_filename() {
    let url = "https://github.com/o/r/releases/download/v2.5.0/tool-2.4.AppImage";
    let pkg = UrlPackage::from_url(url, None, None, None, None).unwrap();
    assert_eq!(pkg.version, "2.5.0");
    assert_eq!(pkg.pkg_name, "tool");
    assert_eq!(pkg.pkg_type.as_deref(), Some("appimage"));
}

#[test]
fn a_url_query_is_not_part_of_the_filename() {
    let pkg = UrlPackage::from_url("  https://example.com/f/App-1.2.tar.gz?x=1  ", None, None, None, None)
        .unwrap();
    assert_eq!(pkg.url, "https://example.com/f/App-1.2.tar.gz?x=1");
    assert_eq!(pkg.pkg_name, "app");
    assert_eq!(pkg.version, "1.2");
    assert_eq!(pkg.pkg_type.as_deref(), Some("archive"));
}

#[test]
fn bad_remote_references_are_refused_with_their_reason() {
    let e = UrlPackage::from_url("ftp://x/y", None, None, None, None).unwrap_err();
    assert_eq!(custom_message(e), "Invalid URL: ftp://x/y");
    let e = UrlPackage::from_url("https://example.com/", None, None, None, None).unwrap_err();
    assert_eq!(custom_message(e), "Could not extract filename from URL");
    let e = UrlPackage::from_ghcr("docker.io/a/b", None, None, None, None).unwrap_err();
    assert_eq!(custom_message(e), "Invalid GHCR reference: docker.io/a/b");
    let e = UrlPackage::from_remote("curl", None, None, None, None).unwrap_err();
    assert_eq!(
        custom_message(e),
        "Invalid remote reference: curl. Expected HTTP(S) URL or ghcr.io/... reference"
    );
    let e = UrlPackage::from_ghcr("ghcr.io/a/b", Some("x/y"), None, None, None).unwrap_err();
    assert_eq!(
        custom_message(e),
        "Invalid package name 'x/y': must be a single path component"
    );
}

#[test]
fn a_remote_reference_goes_to_its_parser() {
    let pkg = UrlPackage::from_remote("ghcr.io/a/b:v3", None, None, Some("AppImage"), None).unwrap();
    assert!(pkg.is_ghcr);
    assert_eq!(pkg.version, "3");
    assert_eq!(pkg.pkg_type.as_deref(), Some("appimage"));
    let pkg = UrlPackage::from_remote("https://example.com/tool", None, None, None, None).unwrap();
    assert!(!pkg.is_ghcr);
    assert_eq!(pkg.pkg_name, "tool");
    assert_eq!(pkg.version, "unknown");
    assert_eq!(pkg.pkg_family.as_deref(), Some("example.com.tool"));
}

#[test]
fn platform_words_after_the_name_are_dropped() {
    assert_eq!(strip_platform_words("tool_x86_64-unknown-linux-musl"), "tool");
    assert_eq!(strip_platform_words("linux_tool-1.0-linux"), "linux_tool-1.0");
    assert_eq!(strip_platform_words("a--b"), "a-b");
    assert_eq!(strip_platform_words(""), "");
}

#[test]
fn the_filename_pattern_takes_the_longest_name() {
    assert_eq!(parse_filename("my_app_1.0"), ("my_app".to_string(), "1.0".to_string()));
    assert_eq!(parse_filename("abc1.2"), ("abc1".to_string(), "2".to_string()));
    assert_eq!(parse_filename("Tool.V3.4a"), ("tool".to_string(), "3".to_string()));
    assert_eq!(parse_filename("1tool-2.0"), ("1tool-2.0".to_string(), "unknown".to_string()));
}

// ─── local files and configured directories ──────────────────────────

#[test]
fn only_path_like_inputs_are_local_candidates() {
    assert_eq!(LocalPackage::local_candidate("jq"), None);
    assert_eq!(LocalPackage::local_candidate("jq#all"), None);
    assert_eq!(LocalPackage::local_candidate("repo/pkg"), Some("repo/pkg".to_string()));
    assert_eq!(LocalPackage::local_candidate("  ./a.AppImage "), Some("./a.AppImage".to_string()));
    assert_eq!(LocalPackage::local_candidate("~"), Some("~".to_string()));
    assert_eq!(
        LocalPackage::local_candidate("file:///tmp/x.AppImage"),
        Some("/tmp/x.AppImage".to_string())
    );
}

#[test]
fn a_local_file_is_read_from_its_name() {
    let pkg = LocalPackage::from_parts(
        "/tmp/MyApp-2.0.1-x86_64.AppImage".to_string(),
        "MyApp-2.0.1-x86_64.AppImage",
        Some(4),
        false,
        None,
        None,
        None,
        None,
    );
    assert_eq!(pkg.pkg_name, "myapp");
    assert_eq!(pkg.version, "2.0.1");
    assert_eq!(pkg.pkg_type, Some("appimage".to_string()));
    assert_eq!(pkg.pkg_family.as_deref(), Some("local.myapp-appimage"));
    assert_eq!(pkg.size, Some(4));
    assert_eq!(pkg.path, "/tmp/MyApp-2.0.1-x86_64.AppImage");
}

#[test]
fn content_decides_the_type_only_where_the_name_does_not() {
    let sniffed = LocalPackage::from_parts(
        "/tmp/blob.bin".to_string(), "blob.bin", None, true, None, None, None, None,
    );
    assert_eq!(sniffed.pkg_type, Some("archive".to_string()));
    assert_eq!(sniffed.pkg_family.as_deref(), Some("local.blob-archive"));
    let elf = LocalPackage::from_parts(
        "/tmp/binary".to_string(), "binary", None, false, None, None, None, None,
    );
    assert_eq!(elf.pkg_type, None);
    assert_eq!(elf.pkg_family.as_deref(), Some("local.binary"));
    let named = LocalPackage::from_parts(
        "/tmp/a.AppImage".to_string(), "a.AppImage", None, true, Some("Tool"), Some("v9"), None, Some("id"),
    );
    assert_eq!(named.pkg_type, Some("appimage".to_string()));
    assert_eq!(named.pkg_name, "tool");
    assert_eq!(named.version, "9");
    assert_eq!(named.pkg_id.as_deref(), Some("id"));
}

fn two_profiles() -> Config {
    let mut c = Config::default_config(&[], &env());
    c.profile = vec![
        ("default".to_string(), Profile { root_path: "/r".to_string(), packages_path: None }),
        ("work".to_string(), Profile { root_path: "/w/".to_string(), packages_path: Some("/pk".to_string()) }),
    ];
    c.default_profile = "default".to_string();
    c.db_path = None;
    c.cache_path = None;
    c.repositories_path = None;
    c.portable_dirs = None;
    c.completions = None;
    c
}

#[test]
fn directories_come_from_the_environment_the_config_or_the_profile() {
    let mut c = two_profiles();
    assert_eq!(c.get_db_path(None, None).unwrap(), "/r/db");
    assert_eq!(c.get_db_path(None, Some("/env-root")).unwrap(), "/env-root/db");
    assert_eq!(c.get_db_path(Some("/env-db"), None).unwrap(), "/env-db");
    c.db_path = Some("/cfg-db".to_string());
    assert_eq!(c.get_db_path(None, None).unwrap(), "/cfg-db");
    assert_eq!(c.get_repositories_path(None, None).unwrap(), "/r/repos");
    assert_eq!(c.get_portable_dirs(None, None).unwrap(), "/r/portable-dirs");
    assert_eq!(c.get_cache_path(None, "work", None).unwrap(), "/w/cache");
    assert_eq!(c.get_packages_path(None, None, "work", None).unwrap(), "/pk");
    assert_eq!(c.get_packages_path(None, Some("default".to_string()), "work", None).unwrap(), "/r/packages");
    assert!(matches!(c.get_cache_path(None, "gone", None), Err(ConfigError::MissingProfile(n)) if n == "gone"));
    c.default_profile = "gone".to_string();
    assert!(matches!(c.get_repositories_path(None, None), Err(ConfigError::MissingDefaultProfile(n)) if n == "gone"));
    assert_eq!(c.get_db_path(None, None).unwrap(), "/cfg-db");
}

#[test]
fn completions_go_to_the_shells_configured_or_present() {
    let mut c = two_profiles();
    assert_eq!(c.completion_shells(true, false, true), vec!["bash".to_string(), "fish".to_string()]);
    assert!(c.completion_shells(false, false, false).is_empty());
    c.completions = Some(vec!["zsh".to_string()]);
    assert_eq!(c.completion_shells(true, true, true), vec!["zsh".to_string()]);
}

// ─── default repositories and narrowing candidates ───────────────────

#[test]
fn a_default_repository_must_serve_the_platform() {
    assert_eq!(parse_default_repos_arg("  SoarPkgs ", &env()).unwrap(), "soarpkgs");
    assert_eq!(parse_default_repos_arg("bincache", &env()).unwrap(), "bincache");
    match parse_default_repos_arg("riscv-only", &env()) {
        Err(SoarError::Custom(m)) => assert_eq!(
            m,
            "Invalid repository 'riscv-only'. Valid options for this platform (x86_64-Linux) are: soarpkgs, bincache"
        ),
        other => panic!("unexpected {other:?}"),
    }
}

fn keys(ks: &[Option<&str>]) -> Vec<Option<String>> {
    ks.iter().map(|k| k.map(str::to_string)).collect()
}

#[test]
fn narrowing_keeps_the_candidates_that_carry_the_key() {
    let ids = keys(&[Some("a"), None, Some("b"), Some("a")]);
    assert_eq!(narrow_by_pkg_id(&ids, Some("a")), vec![0, 3]);
    assert_eq!(narrow_by_pkg_id(&ids, Some("b")), vec![2]);
    assert_eq!(narrow_by_pkg_id(&ids, None), vec![0, 1, 2, 3]);
}

#[test]
fn narrowing_keeps_all_where_none_carries_the_key() {
    let fams = keys(&[None, Some("x.y")]);
    assert_eq!(narrow_by_pkg_family(&fams, Some("gone")), vec![0, 1]);
    assert_eq!(narrow_by_pkg_family(&fams, Some("x.y")), vec![1]);
    assert!(narrow_by_pkg_family(&Vec::new(), Some("x.y")).is_empty());
}

// ─── recipe paths and where listed files are found ───────────────────

#[test]
fn recipe_paths_must_stay_relative() {
    assert!(validate_relative_path("bin/tool", "Binary").is_ok());
    match validate_relative_path("/etc/passwd", "Binary") {
        Err(SoarError::Custom(m)) => assert_eq!(m, "Binary '/etc/passwd' must be a relative path, not absolute"),
        other => panic!("unexpected {other:?}"),
    }
    match validate_relative_path("a/../../b", "Icon") {
        Err(SoarError::Custom(m)) => assert_eq!(m, "Icon 'a/../../b' contains path traversal components"),
        other => panic!("unexpected {other:?}"),
    }
}

#[test]
fn a_listed_file_is_found_as_written_then_promoted_then_by_name() {
    let present = vec![
        "tool-1.0/bin/tool".to_string(),
        "bin/tool".to_string(),
        "share/doc/README".to_string(),
    ];
    assert_eq!(resolve_source("bin/tool", &present, false), Some(SourcePick::Present(1)));
    assert_eq!(resolve_source("tool-1.0/bin/tool", &present, false), Some(SourcePick::Present(0)));
    assert_eq!(resolve_source("pkg/share/doc/README", &present, false), Some(SourcePick::Present(2)));
    assert_eq!(resolve_source("x/y/README", &present, false), Some(SourcePick::Present(2)));
    assert_eq!(resolve_source("missing", &present, true), None);
    assert_eq!(resolve_source("", &present, true), Some(SourcePick::Artifact));
    assert_eq!(resolve_source("", &present, false), None);
}

// ─── prompts and unordered versions ──────────────────────────────────

#[test]
fn a_selection_is_a_number_among_those_listed() {
    assert_eq!(selection_index("1", 3), Some(0));
    assert_eq!(selection_index("+3", 3), Some(2));
    assert_eq!(selection_index("0", 3), None);
    assert_eq!(selection_index("4", 3), None);
    assert_eq!(selection_index("two", 3), None);
    assert_eq!(selection_index("", 3), None);
    assert_eq!(selection_index("99999999999999999999999", 3), None);
}

#[test]
fn only_yes_confirms() {
    assert!(confirms("y"));
    assert!(confirms("YES"));
    assert!(!confirms(""));
    assert!(!confirms("no"));
    assert!(!confirms("yess"));
}

#[test]
fn a_listing_shows_the_family_where_it_differs() {
    assert_eq!(listing_name("jq", Some("jqlang.jq")), "jqlang.jq/jq");
    assert_eq!(listing_name("jq", Some("jq")), "jq");
    assert_eq!(listing_name("jq", None), "jq");
}

#[test]
fn a_different_checksum_supersedes_only_unordered_versions() {
    assert!(supersedes_unordered(false, Some("a"), false, Some("b")));
    assert!(!supersedes_unordered(false, Some("a"), false, Some("a")));
    assert!(!supersedes_unordered(true, Some("a"), false, Some("b")));
    assert!(!supersedes_unordered(false, Some("a"), true, Some("b")));
    assert!(!supersedes_unordered(false, None, false, Some("b")));
    assert!(!supersedes_unordered(false, Some("a"), false, None));
}

// The versions below: `0f3a21b` and `89c99d2a9` are commit hashes, which
// carry no order; `3.5.2` and `3.5.3` are versions that do.
const OFFERED_ORDERED: bool = false;
const HELD_ORDERED: bool = false;

#[test]
fn a_different_artifact_supersedes_a_version_carrying_no_order() {
    assert!(supersedes_unordered(OFFERED_ORDERED, Some("bsum-new"), HELD_ORDERED, Some("bsum-old")));
}

#[test]
fn the_same_artifact_supersedes_nothing() {
    assert!(!supersedes_unordered(OFFERED_ORDERED, Some("bsum-same"), HELD_ORDERED, Some("bsum-same")));
}

#[test]
fn a_version_that_can_be_ordered_is_left_to_the_version() {
    // "3.5.2" against "3.5.2", then "3.5.3" against the commit hash.
    assert!(!supersedes_unordered(true, Some("bsum-new"), true, Some("bsum-old")));
    assert!(!supersedes_unordered(true, Some("bsum-new"), HELD_ORDERED, Some("bsum-old")));
}

#[test]
fn nothing_is_claimed_where_a_checksum_is_missing() {
    assert!(!supersedes_unordered(OFFERED_ORDERED, None, HELD_ORDERED, Some("bsum-old")));
    assert!(!supersedes_unordered(OFFERED_ORDERED, Some("bsum-new"), HELD_ORDERED, None));
}

#[test]
fn a_maintainer_entry_is_a_name_and_a_contact() {
    assert_eq!(
        extract_name_and_contact("Jane Doe (jane@example.com)"),
        Some(("Jane Doe".to_string(), "jane@example.com".to_string()))
    );
    assert_eq!(
        extract_name_and_contact("A (b (c)"),
        Some(("A".to_string(), "b (c".to_string()))
    );
    assert_eq!(extract_name_and_contact("Jane Doe"), None);
    assert_eq!(extract_name_and_contact("Jane(x)"), None);
    assert_eq!(extract_name_and_contact(" (x)"), None);
    assert_eq!(extract_name_and_contact("A ()"), None);
    assert_eq!(extract_name_and_contact("A (x) "), None);
    assert_eq!(extract_name_and_contact("A) (x)"), None);
    assert_eq!(extract_name_and_contact("A (x))"), None);
}

// ─── the sandbox and what the command line shows ─────────────────────

#[test]
fn a_sandboxed_command_reads_the_defaults_then_what_it_was_given() {
    let cmd = SandboxedCommand::new("make", "/work".to_string())
        .config(SandboxConfig::new().add_read_path("/opt/sdk".to_string()))
        .read_path("/srv/data".to_string());
    let r = read_paths(&cmd);
    assert_eq!(r.len(), default_read_paths().len() + 2);
    assert_eq!(r[0], "/usr");
    assert_eq!(r[r.len() - 2], "/opt/sdk");
    assert_eq!(r[r.len() - 1], "/srv/data");
}

#[test]
fn a_sandboxed_command_writes_its_directory_first() {
    let user = vec!["/home/u/.cache".to_string()];
    let cmd = SandboxedCommand::new("make", "/work".to_string())
        .config(SandboxConfig::new().add_write_path("/out".to_string()).with_user_dirs())
        .write_path("/scratch".to_string());
    let w = write_paths(&cmd, &user);
    let defaults = default_write_paths();
    assert_eq!(w[0], "/work");
    assert_eq!(w[1..1 + defaults.len()], defaults[..]);
    assert_eq!(w[1 + defaults.len()..], ["/home/u/.cache", "/out", "/scratch"]);
    let plain = SandboxedCommand::new("make", "/work".to_string());
    assert_eq!(write_paths(&plain, &user).len(), 1 + defaults.len());
}

#[test]
fn the_sandbox_applies_only_where_it_is_on_and_supported() {
    assert!(matches!(run_mode(true, true), RunMode::Sandboxed));
    assert!(matches!(run_mode(true, false), RunMode::Direct));
    assert!(matches!(run_mode(false, true), RunMode::Direct));
    let cmd = SandboxedCommand::new("x", "/".to_string()).no_sandbox();
    assert!(!cmd.config.enabled);
    assert!(restricts_network(4, &NetworkConfig::allow_https()));
    assert!(!restricts_network(3, &NetworkConfig::allow_https()));
    assert!(!restricts_network(5, &NetworkConfig::allow_all()));
    assert_eq!(NetworkConfig::allow_https().allow_connect_tcp, vec![80, 443]);
    let c = SandboxConfig::disabled().with_network(NetworkConfig::allow_all());
    assert!(!c.enabled);
    assert!(c.network.allow_all);
}

#[test]
fn icons_follow_the_display_settings() {
    let mut state = SoarState {
        config: None,
        fallback: default_config(),
        current_profile: None,
        system_mode: false,
        config_path: "/c".to_string(),
    };
    let shown = display_settings(&state).icons();
    assert_eq!(icon_or(&state, "★", "*"), if shown { "★" } else { "*" });
    let mut quiet = default_config();
    quiet.display = Some(pkgforge::soar_config::DisplaySettings {
        progress_style: None,
        icons: Some(false),
        spinners: None,
    });
    state.config = Some(quiet);
    assert_eq!(icon_or(&state, "★", "*"), "*");
    let flags = OutputFlags { color: false, progress: true, json: false };
    assert!(progress_enabled(&flags));
    assert!(!json_enabled(&flags));
}

#[test]
fn a_repository_reports_its_settings_with_their_defaults() {
    let j = RepositoryJson::from_repository(&repo_named("r"));
    assert_eq!(j.name, "r");
    assert!(j.enabled);
    assert!(!j.signature_verification);
    assert!(!j.desktop_integration);
}

#[test]
fn a_link_opens_in_the_preferred_terminal_else_the_first_found() {
    let none: Vec<Option<String>> = vec![None; TERMINAL_COUNT];
    assert_eq!(
        pick_terminal(Some("/usr/bin/kitty"), true, &none),
        Some(("/usr/bin/kitty".to_string(), vec![]))
    );
    assert_eq!(
        pick_terminal(Some("myterm"), true, &none),
        Some(("myterm".to_string(), vec!["-e".to_string()]))
    );
    assert_eq!(pick_terminal(Some("myterm"), false, &none), None);
    let mut found = none.clone();
    found[1] = Some("/bin/wezterm".to_string());
    found[12] = Some("/bin/xterm".to_string());
    assert_eq!(
        pick_terminal(None, false, &found),
        Some(("/bin/wezterm".to_string(), vec!["start".to_string(), "--".to_string()]))
    );
    assert_eq!(preferred_terminal_args("gnome-terminal"), vec!["--".to_string()]);
    assert_eq!(terminal_name(0), "xdg-terminal-exec");
    assert!(terminal_args(0).is_empty());
    assert_eq!(terminal_args(9), vec!["-x".to_string()]);
}

// ─── package records ─────────────────────────────────────────────────

#[test]
fn test_package_resolve() {
    let pkg = Package {
        version: "v1.0.0".to_string(),
        download_url: "https://example.com/pkg?tag={{version}}".to_string(),
        ghcr_pkg: Some("ghcr.io/pkg:{{version}}".to_string()),
        ..Default::default()
    };

    let resolved = pkg.resolve(None);
    assert_eq!(resolved.download_url, "https://example.com/pkg?tag=v1.0.0");
    assert_eq!(resolved.ghcr_pkg, Some("ghcr.io/pkg:v1.0.0".to_string()));
    assert_eq!(resolved.version, "v1.0.0");

    let resolved = pkg.resolve(Some("v0.5.0"));
    assert_eq!(resolved.download_url, "https://example.com/pkg?tag=v0.5.0");
    assert_eq!(resolved.ghcr_pkg, Some("ghcr.io/pkg:v0.5.0".to_string()));
    assert_eq!(resolved.version, "v0.5.0");
}

#[test]
fn test_package_resolve_no_placeholder() {
    let pkg = Package {
        version: "v2.0.0".to_string(),
        download_url: "https://api.example.com/pkg/static-url".to_string(),
        ..Default::default()
    };

    let resolved = pkg.resolve(None);
    assert_eq!(resolved.download_url, "https://api.example.com/pkg/static-url");
}

#[test]
fn test_has_version_current() {
    let pkg = Package {
        version: "v1.0.0".to_string(),
        ..Default::default()
    };

    assert!(pkg.has_version("v1.0.0"));
    assert!(!pkg.has_version("v0.9.0"));
}

#[test]
fn test_has_version_snapshot() {
    let pkg = Package {
        version: "v1.0.0".to_string(),
        snapshots: Some(vec!["v0.9.0".to_string(), "v0.8.0".to_string(), "v0.7.0".to_string()]),
        ..Default::default()
    };

    assert!(pkg.has_version("v1.0.0"));
    assert!(pkg.has_version("v0.9.0"));
    assert!(pkg.has_version("v0.8.0"));
    assert!(!pkg.has_version("v0.6.0"));
}

#[test]
fn test_has_version_no_snapshots() {
    let pkg = Package {
        version: "v1.0.0".to_string(),
        snapshots: None,
        ..Default::default()
    };

    assert!(pkg.has_version("v1.0.0"));
    assert!(!pkg.has_version("v0.9.0"));
}

#[test]
fn resolving_keeps_what_holds_no_placeholder() {
    let pkg = Package {
        id: 7,
        pkg_name: "tool".to_string(),
        version: "v1".to_string(),
        ghcr_blob: Some("sha:{{version}}".to_string()),
        ghcr_url: None,
        licenses: Some(vec!["MIT".to_string()]),
        maintainers: Some(vec![pkgforge::package::Maintainer {
            name: "Jane".to_string(),
            contact: "j@x".to_string(),
        }]),
        deprecated: true,
        ..Default::default()
    };
    let r = pkg.resolve(Some("v2"));
    assert_eq!(r.id, 7);
    assert_eq!(r.pkg_name, "tool");
    assert_eq!(r.ghcr_blob.as_deref(), Some("sha:v2"));
    assert_eq!(r.ghcr_url, None);
    assert_eq!(r.licenses, Some(vec!["MIT".to_string()]));
    assert_eq!(r.maintainers.unwrap()[0].contact, "j@x");
    assert!(r.deprecated);
}

#[test]
fn test_to_package() {
    let url = "https://github.com/user/testrepo/releases/Test-1.0.AppImage";
    let url_pkg = UrlPackage::from_url(url, None, None, None, None).unwrap();
    let pkg = url_pkg.to_package();

    assert_eq!(pkg.repo_name, "local");
    assert_eq!(pkg.pkg_name, "test");
    assert_eq!(pkg.version, "1.0");
    assert_eq!(pkg.pkg_family.as_deref(), Some("github.com.user.testrepo"));
    assert_eq!(pkg.download_url, url);
}

#[test]
fn test_ghcr_to_package() {
    let ghcr = "ghcr.io/pkgforge/soar:v0.8.1";
    let url_pkg = UrlPackage::from_ghcr(ghcr, None, None, None, None).unwrap();
    let pkg = url_pkg.to_package();

    assert_eq!(pkg.repo_name, "local");
    assert_eq!(pkg.pkg_name, "soar");
    assert_eq!(pkg.version, "0.8.1");
    assert_eq!(pkg.pkg_family.as_deref(), Some("pkgforge.soar"));
    assert_eq!(pkg.download_url, "");
    assert_eq!(pkg.ghcr_pkg, Some("ghcr.io/pkgforge/soar:v0.8.1".to_string()));
}

#[test]
fn test_url_to_package_not_ghcr() {
    let url = "https://github.com/user/repo/releases/app-1.0.AppImage";
    let url_pkg = UrlPackage::from_url(url, None, None, None, None).unwrap();
    let pkg = url_pkg.to_package();

    assert!(!url_pkg.is_ghcr);
    assert_eq!(pkg.download_url, url);
    assert_eq!(pkg.ghcr_pkg, None);
}

#[test]
fn a_local_package_is_copied_from_its_path() {
    let local = LocalPackage::from_parts(
        "/tmp/MyApp-2.0.1-x86_64.AppImage".to_string(),
        "MyApp-2.0.1-x86_64.AppImage",
        Some(4),
        false,
        None,
        None,
        None,
        None,
    );
    let package = local.to_package();
    assert_eq!(package.repo_name, "local");
    assert_eq!(package.download_url, "file:///tmp/MyApp-2.0.1-x86_64.AppImage");
    assert_eq!(package.description, "Installed from /tmp/MyApp-2.0.1-x86_64.AppImage");
    assert_eq!(package.size, Some(4));
    assert_eq!(package.pkg_name, "myapp");
}

#[test]
fn a_package_reports_its_registry_size_first() {
    let pkg = Package {
        pkg_name: "jq".to_string(),
        repo_name: "bincache".to_string(),
        version: "1.7".to_string(),
        size: Some(10),
        ghcr_size: Some(20),
        homepages: Some(vec!["https://jqlang.org".to_string()]),
        maintainers: Some(vec![pkgforge::package::Maintainer {
            name: "Jane".to_string(),
            contact: "j@x".to_string(),
        }]),
        ..Default::default()
    };
    let j = PackageJson::new(&pkg, true, vec!["1.6".to_string()]);
    assert_eq!(j.size, Some(20));
    assert!(j.installed);
    assert_eq!(j.other_versions, vec!["1.6".to_string()]);
    let d = PackageDetailJson::from_package(&pkg);
    assert_eq!(d.size, Some(20));
    assert_eq!(d.homepages, vec!["https://jqlang.org".to_string()]);
    assert!(d.licenses.is_empty());
    assert_eq!(d.maintainers, vec!["Jane (j@x)".to_string()]);
    let plain = Package { size: Some(10), ..Default::default() };
    assert_eq!(PackageJson::new(&plain, false, vec![]).size, Some(10));
}
