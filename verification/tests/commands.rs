use pkgforge::asset_name::strip_platform_words;
use pkgforge::cli::InspectType;
use pkgforge::commands::{
    accepts_update, checksum_token, content_length, inspect_file_name, installed_summary,
    log_text, package_key, pick_checksum_asset, pick_self_asset, pick_update, raw_log_url,
    too_large, update_channel,
};
use pkgforge::install::{
    auto_extract_root, download_plan, download_retry, AttemptOutcome, DownloadPlan, RetryStep,
    MAX_RETRIES,
};
use pkgforge::soar_config::{Config, Environment, Profile};

fn s(x: &str) -> String {
    x.to_string()
}

// ─── download retries ────────────────────────────────────────────────

#[test]
fn a_completed_download_finishes() {
    assert_eq!(download_retry(0, &AttemptOutcome::Done), RetryStep::Finished);
    assert_eq!(download_retry(3, &AttemptOutcome::Done), RetryStep::Finished);
}

#[test]
fn only_rate_limits_and_network_failures_are_retried() {
    assert_eq!(
        download_retry(0, &AttemptOutcome::HttpStatus(429)),
        RetryStep::Retry { retries: 1, report: false, give_up: false }
    );
    assert_eq!(
        download_retry(1, &AttemptOutcome::Network),
        RetryStep::Retry { retries: 2, report: true, give_up: false }
    );
    assert_eq!(download_retry(0, &AttemptOutcome::HttpStatus(404)), RetryStep::Fail);
    assert_eq!(download_retry(0, &AttemptOutcome::HttpStatus(500)), RetryStep::Fail);
    assert_eq!(download_retry(2, &AttemptOutcome::Other), RetryStep::Fail);
}

#[test]
fn a_download_is_retried_five_times_then_given_up() {
    let mut retries = 0;
    let mut attempts = 1;
    loop {
        match download_retry(retries, &AttemptOutcome::Network) {
            RetryStep::Retry { retries: n, give_up, .. } => {
                assert_eq!(n, retries + 1);
                retries = n;
                if give_up {
                    break;
                }
                attempts += 1;
            }
            other => panic!("unexpected step {other:?}"),
        }
    }
    assert_eq!(attempts, 6);
    assert_eq!(retries, MAX_RETRIES + 1);
}

#[test]
fn a_package_downloads_from_its_image_or_its_url() {
    match download_plan(Some("ghcr.io/pkgforge/bincache/tool:latest"), "https://x/tool", "/pk/tool-1", "tool") {
        DownloadPlan::Oci { reference, output } => {
            assert_eq!(reference, "ghcr.io/pkgforge/bincache/tool:latest");
            assert_eq!(output, "/pk/tool-1");
        }
        other => panic!("expected an image, got {other:?}"),
    }
    match download_plan(None, "https://x/tool", "/pk/tool-1", "tool") {
        DownloadPlan::Direct { url, output } => {
            assert_eq!(url, "https://x/tool");
            assert_eq!(output, "/pk/tool-1/tool");
        }
        other => panic!("expected a file, got {other:?}"),
    }
}

// ─── extract roots ───────────────────────────────────────────────────

#[test]
fn a_lone_directory_becomes_the_extract_root() {
    let entries = vec![(s(".hidden"), false), (s("tool-1.2.3-x86_64"), true)];
    assert_eq!(auto_extract_root(false, true, &entries), Some(s("tool-1.2.3-x86_64")));
}

#[test]
fn no_extract_root_is_guessed_otherwise() {
    let one_dir = vec![(s("tool-1.2.3"), true)];
    assert_eq!(auto_extract_root(true, true, &one_dir), None);
    assert_eq!(auto_extract_root(false, false, &one_dir), None);
    let dir_and_file = vec![(s("tool-1.2.3"), true), (s("README"), false)];
    assert_eq!(auto_extract_root(false, true, &dir_and_file), None);
    let two_dirs = vec![(s("a"), true), (s("b"), true)];
    assert_eq!(auto_extract_root(false, true, &two_dirs), None);
    let one_file = vec![(s("tool"), false)];
    assert_eq!(auto_extract_root(false, true, &one_file), None);
    assert_eq!(auto_extract_root(false, true, &vec![]), None);
}

// ─── self update ─────────────────────────────────────────────────────

#[test]
fn the_update_channel_follows_the_environment() {
    assert!(update_channel(true, false, false));
    assert!(!update_channel(false, true, true));
    assert!(update_channel(true, true, true));
    assert!(!update_channel(true, true, false));
    assert!(update_channel(false, false, true));
    assert!(!update_channel(false, false, false));
}

fn releases() -> Vec<(String, String)> {
    vec![
        (s("nightly"), s("nightly-abc123")),
        (s("v0.9.0"), s("Soar v0.9.0")),
        (s("v0.11.0"), s("Soar v0.11.0")),
        (s("v0.10.2"), s("Soar v0.10.2")),
    ]
}

#[test]
fn a_stable_build_updates_to_the_first_newer_release() {
    assert_eq!(pick_update(&releases(), "0.10.1", false), Some(2));
    assert_eq!(pick_update(&releases(), "0.11.0", false), None);
    assert_eq!(pick_update(&releases(), "0.12.0", false), None);
}

#[test]
fn a_nightly_build_updates_to_another_nightly() {
    assert_eq!(pick_update(&releases(), "nightly-abc123", true), None);
    assert_eq!(pick_update(&releases(), "nightly-def456", true), Some(0));
    // A nightly build moving to the stable channel takes the first release.
    assert_eq!(pick_update(&releases(), "nightly-def456", false), Some(0));
}

#[test]
fn the_binary_for_the_architecture_is_picked() {
    let names = vec![
        s("soar-x86_64-linux.tar.gz"),
        s("soar-aarch64-linux"),
        s("soar-x86_64-linux.b3sum"),
        s("soar-x86_64-linux"),
    ];
    assert_eq!(pick_self_asset(&names, "x86_64"), Some(3));
    assert_eq!(pick_self_asset(&names, "riscv64"), None);
    let with_sum = vec![s("soar-x86_64-linux"), s("soar-x86_64-linux.b3sum")];
    assert_eq!(pick_checksum_asset(&with_sum, "soar-x86_64-linux"), Some(1));
    assert_eq!(pick_checksum_asset(&with_sum, "soar-aarch64-linux"), None);
}

#[test]
fn a_checksum_file_yields_its_digest() {
    assert_eq!(checksum_token("abc123  soar-x86_64-linux\n"), Some(s("abc123")));
    assert_eq!(checksum_token("  \n"), None);
}

#[test]
fn an_update_is_accepted_by_a_yes() {
    assert!(accepts_update(" Yes\n"));
    assert!(accepts_update("y"));
    assert!(!accepts_update("n"));
    assert!(!accepts_update(""));
}

// ─── installed summary ───────────────────────────────────────────────

#[test]
fn the_installed_summary_counts_and_sums() {
    let a = package_key("bincache", Some("tool#bin"), Some("tool"), "tool");
    assert_eq!(a, "bincache-tool#bin-tool-tool");
    assert_eq!(package_key("r", None, None, "n"), "r---n");
    let entries = vec![
        (true, 100, a.clone()),
        (true, 50, a.clone()),
        (false, 7, s("r---broken")),
        (true, 10, s("r---other")),
    ];
    assert_eq!(installed_summary(&entries), (3, 2, 1, 160, 7));
    assert_eq!(installed_summary(&vec![]), (0, 0, 0, 0, 0));
}

#[test]
fn a_broken_copy_does_not_count_as_distinct() {
    let entries = vec![(false, 5, s("k")), (true, 1, s("k"))];
    assert_eq!(installed_summary(&entries), (1, 1, 1, 1, 5));
}

// ─── inspecting builds ───────────────────────────────────────────────

#[test]
fn github_log_urls_are_read_raw() {
    assert_eq!(
        raw_log_url("https://github.com/pkgforge/soarpkgs/blob/main/packages/x/build.log"),
        "https://github.com/pkgforge/soarpkgs/raw/refs/heads/main/packages/x/build.log"
    );
    assert_eq!(
        raw_log_url("https://github.com/o/r/tree/main/a/blob/b"),
        "https://github.com/o/r/raw/refs/heads/main/a/raw/refs/heads/b"
    );
    assert_eq!(raw_log_url("https://example.com/blob/x"), "https://example.com/blob/x");
}

#[test]
fn inspected_files_and_sizes() {
    assert_eq!(inspect_file_name("tool", &InspectType::BuildLog), "tool.log");
    assert_eq!(inspect_file_name("tool", &InspectType::BuildScript), "SBUILD");
    assert!(!too_large(1_048_576));
    assert!(too_large(1_048_577));
    assert_eq!(content_length(Some("2048")), 2048);
    assert_eq!(content_length(Some("lots")), 0);
    assert_eq!(content_length(None), 0);
    assert_eq!(log_text("a\r\nb\rc"), "a\n\nb\nc");
}

// ─── profiles ────────────────────────────────────────────────────────

#[test]
fn each_profile_is_found_under_its_own_name() {
    let env = Environment {
        soar_root: Some(s("/soar")),
        system_mode: false,
        data_home: s("/home/u/.local/share"),
        platform: s("x86_64-Linux"),
        repositories: vec![],
    };
    let mut c = Config::default_config(&[], &env);
    c.profile = vec![
        (s("default"), Profile { root_path: s("/r"), packages_path: None }),
        (s("work"), Profile { root_path: s("/w"), packages_path: None }),
    ];
    assert_eq!(c.get_profile("work").unwrap().root_path, "/w");
    assert_eq!(c.get_profile("default").unwrap().root_path, "/r");
}

// ─── platform words ──────────────────────────────────────────────────

#[test]
fn a_one_word_name_is_kept_even_when_it_reads_like_a_platform() {
    assert_eq!(strip_platform_words("windows"), "windows");
    assert_eq!(strip_platform_words("ripgrep"), "ripgrep");
}

#[test]
fn a_platform_word_after_the_version_is_dropped() {
    assert_eq!(strip_platform_words("tool-1.0-linux"), "tool-1.0");
    assert_eq!(strip_platform_words("tool_2.3_darwin"), "tool_2.3");
}
