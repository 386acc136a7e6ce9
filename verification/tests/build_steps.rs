use pkgforge::appimage::{
    appinfo_content, metadata_content, nightly_content, nightly_update_info, plan_build,
    sort_env_content,
};
use pkgforge::config::{BuildEnv, CliArgs, Config};
use pkgforge::desktop::DesktopEntry;
use pkgforge::dwarfs::{
    build_appimage_args, build_profile_args, check_fuse_available, is_mount_name, new_mounts,
    path_candidates, resolve_mkdwarfs, MkdwarfsSource,
};
use pkgforge::elf::read_section;
use pkgforge::error::Error;
use pkgforge::uruntime::{configure_runtime, resolve_runtime, RuntimeSource};
use pkgforge::util::{check_downloaded, download_step, is_elf, process_unique_path, DownloadStep};

fn env_with(host: &str) -> BuildEnv {
    BuildEnv {
        appimage_arch: None,
        host_arch: host.to_string(),
        optimize_launch: None,
        uruntime_preload: None,
        devel_release: None,
        optimize_launch_timeout: None,
        upinfo: None,
        github_repository: None,
        add_perma_env_vars: None,
        dwarfsprof: None,
        dwarfs_link: None,
        version: None,
        home_version_file: None,
    }
}

fn config() -> Config {
    Config::from_cli_args(
        CliArgs {
            appdir: Some("/w/AppDir".to_string()),
            tmpdir: Some("/tmp".to_string()),
            ..Default::default()
        },
        &env_with("x86_64"),
    )
    .unwrap()
}

/// A minimal ELF64 LE image with a `.upd_info` and an `.envs` section of
/// 32 bytes each, and the mount marker in between.
fn runtime_image() -> Vec<u8> {
    let mut strtab = vec![0u8];
    strtab.extend_from_slice(b".shstrtab\0");
    let upd_name = strtab.len() as u32;
    strtab.extend_from_slice(b".upd_info\0");
    let envs_name = strtab.len() as u32;
    strtab.extend_from_slice(b".envs\0");

    let strtab_off = 64usize;
    let upd_off = strtab_off + strtab.len();
    let envs_off = upd_off + 32;
    let marker_off = envs_off + 32;
    let marker = b"URUNTIME_MOUNT=1";
    let shoff = marker_off + marker.len();
    let total = shoff + 64 * 4;
    let mut elf = vec![0u8; total];
    elf[0..4].copy_from_slice(b"\x7fELF");
    elf[4] = 2;
    elf[5] = 1;
    elf[6] = 1;
    elf[40..48].copy_from_slice(&(shoff as u64).to_le_bytes());
    elf[52..54].copy_from_slice(&64u16.to_le_bytes());
    elf[58..60].copy_from_slice(&64u16.to_le_bytes());
    elf[60..62].copy_from_slice(&4u16.to_le_bytes());
    elf[62..64].copy_from_slice(&1u16.to_le_bytes());
    elf[strtab_off..strtab_off + strtab.len()].copy_from_slice(&strtab);
    elf[marker_off..marker_off + marker.len()].copy_from_slice(marker);
    let headers = [
        (1u32, 3u32, strtab_off, strtab.len()),
        (upd_name, 1u32, upd_off, 32usize),
        (envs_name, 1u32, envs_off, 32usize),
    ];
    for (k, (name, kind, off, size)) in headers.iter().enumerate() {
        let h = shoff + 64 * (k + 1);
        elf[h..h + 4].copy_from_slice(&name.to_le_bytes());
        elf[h + 4..h + 8].copy_from_slice(&kind.to_le_bytes());
        elf[h + 24..h + 32].copy_from_slice(&(*off as u64).to_le_bytes());
        elf[h + 32..h + 40].copy_from_slice(&(*size as u64).to_le_bytes());
    }
    elf
}

// ─── the .env file ───────────────────────────────────────────────────

#[test]
fn test_sort_env_file_basic() {
    let sorted = sort_env_content("unset BAZ\nexport FOO=bar\nunset QUX\nexport HELLO=world\n");
    assert_eq!(
        sorted,
        "export FOO=bar\nexport HELLO=world\nunset BAZ\nunset QUX\n"
    );
}

#[test]
fn test_sort_env_file_all_unsets() {
    let sorted = sort_env_content("unset A\nunset B\n");
    assert!(sorted.lines().all(|l| l.starts_with("unset")));
    assert_eq!(sorted, "unset A\nunset B\n");
}

#[test]
fn an_empty_env_file_stays_empty() {
    assert_eq!(sort_env_content(""), "");
}

#[test]
fn a_last_line_without_a_line_feed_gets_one() {
    assert_eq!(sort_env_content("unset A\nexport B=1"), "export B=1\nunset A\n");
}

// ─── desktop entry metadata ──────────────────────────────────────────

#[test]
fn test_desktop_add_appimage_metadata() {
    let content = "[Desktop Entry]\nType=Application\nName=TestApp\nExec=TestApp\n";
    let out = metadata_content(content, "TestApp", "1.0.0", "x86_64");
    assert!(out.contains("X-AppImage-Name=TestApp"));
    assert!(out.contains("X-AppImage-Version=1.0.0"));
    assert!(out.contains("X-AppImage-Arch=x86_64"));
    assert_eq!(
        out,
        "[Desktop Entry]\nType=Application\nName=TestApp\nExec=TestApp\nX-AppImage-Name=TestApp\nX-AppImage-Version=1.0.0\nX-AppImage-Arch=x86_64\n"
    );
}

#[test]
fn test_desktop_metadata_idempotent() {
    let content = "[Desktop Entry]\nType=Application\nName=TestApp\nExec=TestApp\n";
    let once = metadata_content(content, "TestApp", "1.0.0", "x86_64");
    let twice = metadata_content(&once, "TestApp", "2.0.0", "x86_64");
    assert_eq!(twice.matches("X-AppImage-Version=").count(), 1);
    assert!(twice.contains("X-AppImage-Version=2.0.0"));
    assert_eq!(twice, metadata_content(content, "TestApp", "2.0.0", "x86_64"));
}

#[test]
fn a_second_stamp_drops_one_more_final_blank_line() {
    let content = "a\n\n\n";
    let once = metadata_content(content, "T", "1", "x86_64");
    assert_eq!(once, "a\n\nX-AppImage-Name=T\nX-AppImage-Version=1\nX-AppImage-Arch=x86_64\n");
    let twice = metadata_content(&once, "T", "2", "x86_64");
    assert_eq!(twice, "a\nX-AppImage-Name=T\nX-AppImage-Version=2\nX-AppImage-Arch=x86_64\n");
}

#[test]
fn test_desktop_entry_parsing() {
    let content = "[Desktop Entry]\nType=Application\nName=TestApp\nExec=TestApp\nIcon=TestApp\nCategories=Utility;\n";
    let desktop = DesktopEntry::from_content("/w/AppDir/TestApp.desktop", content);
    assert_eq!(desktop.name, "TestApp");
    assert_eq!(desktop.exec_value, "TestApp");
    assert_eq!(desktop.icon_name.as_deref(), Some("TestApp"));
    assert_eq!(desktop.main_binary(), Some("TestApp"));
}

#[test]
fn test_desktop_entry_not_found() {
    let names = vec!["AppRun".to_string(), ".DirIcon".to_string(), "usr".to_string()];
    assert!(matches!(
        DesktopEntry::select_desktop_file(&names),
        Err(Error::NoDesktopEntry)
    ));
}

#[test]
fn the_single_desktop_file_is_picked() {
    let names = vec![
        "AppRun".to_string(),
        "x.desktop".to_string(),
        "Hello.desktop".to_string(),
    ];
    assert!(matches!(DesktopEntry::select_desktop_file(&names), Err(Error::Config(_))));
    let names = vec!["AppRun".to_string(), "Hello.desktop".to_string()];
    assert_eq!(DesktopEntry::select_desktop_file(&names).unwrap(), 1);
}

#[test]
fn a_devel_release_is_named_nightly_once() {
    let out = nightly_content("[Desktop Entry]\nName=Hello\nExec=hello").unwrap();
    assert_eq!(out, "[Desktop Entry]\nName=Hello Nightly\nExec=hello");
    assert!(nightly_content(&out).is_none());
    assert_eq!(
        nightly_update_info("gh-releases-zsync|o|r|latest|*.zsync"),
        "gh-releases-zsync|o|r|nightly|*.zsync"
    );
}

#[test]
fn test_write_appinfo() {
    let content = appinfo_content("TestApp", "1.0.0", "x86_64");
    assert!(content.contains("X-AppImage-Name=TestApp"));
    assert!(content.contains("X-AppImage-Version=1.0.0"));
    assert!(content.contains("X-AppImage-Arch=x86_64"));
    assert_eq!(
        content,
        "X-AppImage-Name=TestApp\nX-AppImage-Version=1.0.0\nX-AppImage-Arch=x86_64\n"
    );
}

// ─── the build plan ──────────────────────────────────────────────────

#[test]
fn the_plan_names_the_output_after_the_sanitized_name() {
    let mut c = config();
    c.version = Some("1.2".to_string());
    let plan = plan_build(&c, "My App", None, 42);
    assert_eq!(plan.app_name, "My_App");
    assert_eq!(plan.version, "1.2");
    assert_eq!(plan.output_name, "My_App-1.2-anylinux-x86_64.AppImage");
    assert_eq!(plan.output_path, "./My_App-1.2-anylinux-x86_64.AppImage");
    assert!(plan.analyze_image.is_none());
    assert!(plan.profile.is_none());
    assert!(plan.update_info.is_none());

    let plan = plan_build(&c, "My App", Some("Other"), 42);
    assert_eq!(plan.app_name, "Other");
}

#[test]
fn a_plan_without_a_version_says_unknown() {
    let c = config();
    let plan = plan_build(&c, "Hello", None, 7);
    assert_eq!(plan.version, "UNKNOWN");
    assert_eq!(plan.output_name, "Hello-UNKNOWN-anylinux-x86_64.AppImage");
}

#[test]
fn a_profiling_plan_names_its_image_and_profile() {
    let mut c = config();
    c.optimize_launch = true;
    c.devel_release = true;
    c.update_info = Some("zsync|latest|x".to_string());
    let plan = plan_build(&c, "Hello", None, 7);
    assert_eq!(plan.analyze_image.as_deref(), Some("/tmp/.analyze.7"));
    assert_eq!(plan.profile.as_deref(), Some("/w/AppDir/.dwarfsprofile"));
    assert_eq!(plan.update_info.as_deref(), Some("zsync|nightly|x"));
}

// ─── the runtime ─────────────────────────────────────────────────────

#[test]
fn configuring_the_runtime_fills_its_sections() {
    let mut data = runtime_image();
    let env = vec!["FOO=1".to_string(), "BAR=2".to_string()];
    configure_runtime(&mut data, Some("zsync|x"), &env, true).unwrap();
    assert!(read_section(&data, ".upd_info").unwrap().starts_with(b"zsync|x\0"));
    assert!(read_section(&data, ".envs").unwrap().starts_with(b"FOO=1\nBAR=2\0"));
    let image = runtime_image();
    let at = image
        .windows(15)
        .position(|w| w == b"URUNTIME_MOUNT=")
        .unwrap();
    assert_eq!(data[at + 15], b'0');
}

#[test]
fn configuring_with_nothing_to_write_leaves_the_runtime_alone() {
    let mut data = runtime_image();
    configure_runtime(&mut data, None, &[], false).unwrap();
    assert_eq!(data, runtime_image());
}

#[test]
fn an_overlong_update_info_is_refused() {
    let mut data = runtime_image();
    let long = "x".repeat(40);
    let r = configure_runtime(&mut data, Some(&long), &[], false);
    assert!(matches!(
        r,
        Err(Error::SectionOverflow { size: 40, capacity: 32, .. })
    ));
}

#[test]
fn a_runtime_without_the_marker_cannot_keep_its_mount() {
    let mut data = vec![0u8; 64];
    assert!(matches!(
        configure_runtime(&mut data, None, &[], true),
        Err(Error::Config(_))
    ));
    let mut data = vec![0u8; 64];
    assert!(matches!(
        configure_runtime(&mut data, Some("x"), &[], false),
        Err(Error::MalformedElf)
    ));
}

#[test]
fn the_runtime_comes_from_the_cache_or_the_user() {
    let c = config();
    match resolve_runtime(&c, false, 99) {
        RuntimeSource::Download { cached, url, work } => {
            assert_eq!(cached, "/tmp/uruntime-x86_64");
            assert_eq!(
                url,
                "https://github.com/pkgforge-dev/Anylinux-uruntime/releases/download/1.0.0/uruntime-appimage-lite-x86_64"
            );
            assert_eq!(work, "/tmp/uruntime-x86_64.work.99");
        }
        RuntimeSource::Given(_) => panic!("no runtime was given"),
    }
    let mut c = config();
    c.runtime = Some("/opt/rt".to_string());
    assert!(matches!(resolve_runtime(&c, true, 1), RuntimeSource::Given(p) if p == "/opt/rt"));
    match resolve_runtime(&c, false, 1) {
        RuntimeSource::Download { cached, work, .. } => {
            assert_eq!(cached, "/tmp/uruntime-x86_64");
            assert_eq!(work, "/tmp/uruntime-x86_64.work.1");
        }
        RuntimeSource::Given(_) => panic!("a missing runtime is downloaded"),
    }
}

// ─── mkdwarfs ────────────────────────────────────────────────────────

#[test]
fn mkdwarfs_is_found_or_fetched() {
    let c = config();
    assert!(matches!(
        resolve_mkdwarfs(&c, false, Some("/usr/bin/mkdwarfs".to_string())).unwrap(),
        MkdwarfsSource::OnPath(p) if p == "/usr/bin/mkdwarfs"
    ));
    match resolve_mkdwarfs(&c, false, None).unwrap() {
        MkdwarfsSource::Download { cached, url } => {
            assert_eq!(cached, "/tmp/mkdwarfs");
            assert_eq!(
                url,
                "https://github.com/mhx/dwarfs/releases/download/v0.15.6/dwarfs-universal-0.15.6-Linux-x86_64"
            );
        }
        _ => panic!("expected a download"),
    }
}

#[test]
fn the_image_arguments_split_the_compression_options() {
    let args = build_appimage_args("/a", "/rt", "/out", "zstd:level=22 -S26 -B6", Some("/p"));
    let expected: Vec<&str> = vec![
        "--force",
        "--order=path",
        "--set-owner",
        "0",
        "--set-group",
        "0",
        "--no-history",
        "--no-create-timestamp",
        "--header",
        "/rt",
        "--input",
        "/a",
        "--categorize=hotness",
        "--hotness-list=/p",
        "-C",
        "zstd:level=22",
        "-S26",
        "-B6",
        "--output",
        "/out",
    ];
    assert_eq!(args, expected);
    let args = build_profile_args("/a", "/rt", "/tmp.img");
    assert_eq!(&args[12..], &["-C", "zstd:level=5", "-S19", "--output", "/tmp.img"]);
    let args = build_appimage_args("/a", "/rt", "/out", "   ", None);
    assert_eq!(&args[12..], &["--output", "/out"]);
}

#[test]
fn fuse_must_be_there_to_profile() {
    assert!(check_fuse_available(true).is_ok());
    assert!(matches!(check_fuse_available(false), Err(Error::Config(_))));
}

#[test]
fn the_search_path_skips_empty_entries() {
    assert_eq!(
        path_candidates("/usr/bin::/bin/", "mkdwarfs"),
        vec!["/usr/bin/mkdwarfs", "/bin/mkdwarfs"]
    );
    assert!(path_candidates("", "x").is_empty());
}

#[test]
fn only_new_mounts_are_unmounted() {
    assert!(is_mount_name(".mount_abc"));
    assert!(!is_mount_name("mount_abc"));
    let before = vec!["/tmp/.mount_a".to_string()];
    let after = vec!["/tmp/.mount_a".to_string(), "/tmp/.mount_b".to_string()];
    assert_eq!(new_mounts(&before, &after), vec!["/tmp/.mount_b"]);
}

// ─── downloads ───────────────────────────────────────────────────────

#[test]
fn test_is_elf() {
    assert!(!is_elf(b"hello world"));
    let mut data = vec![0u8; 64];
    data[0..4].copy_from_slice(b"\x7fELF");
    assert!(is_elf(&data));
    assert!(!is_elf(b""));
    assert!(!is_elf(b"\x7fEL"));
}

#[test]
fn a_download_is_tried_five_times() {
    assert!(matches!(download_step("u", 0, Ok(())), DownloadStep::Done));
    assert!(matches!(
        download_step("u", 0, Err("boom".to_string())),
        DownloadStep::Retry(1)
    ));
    assert!(matches!(
        download_step("u", 3, Err("boom".to_string())),
        DownloadStep::Retry(4)
    ));
    match download_step("u", 4, Err("boom".to_string())) {
        DownloadStep::Fail(Error::DownloadFailed { url, reason }) => {
            assert_eq!(url, "u");
            assert_eq!(reason, "boom");
        }
        _ => panic!("the fifth failure gives up"),
    }
}

#[test]
fn a_download_that_is_not_elf_fails() {
    assert!(check_downloaded("u", b"\x7fELF\x02").is_ok());
    match check_downloaded("u", b"<html>") {
        Err(Error::DownloadFailed { reason, .. }) => {
            assert_eq!(reason, "downloaded file is not a valid ELF binary")
        }
        _ => panic!("not an ELF binary"),
    }
}

#[test]
fn unique_paths_carry_the_process_id() {
    assert_eq!(process_unique_path("/tmp", "x", 1234), "/tmp/x.1234");
    assert_eq!(process_unique_path("/tmp/", "x", 0), "/tmp/x.0");
}
