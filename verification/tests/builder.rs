use pkgforge::config::{env_var_lines, strip_epoch, BuildEnv, CliArgs, Config};
use pkgforge::desktop::{compute_output_name, parse_key, DesktopEntry};
use pkgforge::elf::{read_section, write_section};
use pkgforge::error::Error;
use pkgforge::log::{init, shows, LEVEL_DEBUG, LEVEL_ERROR, LEVEL_INFO, LEVEL_WARN};
use pkgforge::uruntime::patch_keep_mount;
use pkgforge::util::sanitize_filename;

const MOUNT_MARKER: &[u8] = b"URUNTIME_MOUNT=";

/// Create a minimal ELF64 LE binary with one custom section.
fn create_test_elf(section_name: &[u8], initial_data: &[u8]) -> Vec<u8> {
    let section_data_size = 16usize;
    let mut initial = vec![0u8; section_data_size];
    initial[..initial_data.len()].copy_from_slice(initial_data);

    let mut strtab = Vec::new();
    strtab.push(0);
    strtab.extend_from_slice(b".shstrtab");
    strtab.push(0);
    let section_name_offset = strtab.len() as u32;
    strtab.extend_from_slice(section_name);
    strtab.push(0);

    let ehdr_size = 64u64;
    let strtab_offset = ehdr_size;
    let section_data_offset = strtab_offset + strtab.len() as u64;
    let shdr_offset = section_data_offset + section_data_size as u64;
    let shentsize: u64 = 64;
    let shnum: u16 = 3;
    let shstrndx: u16 = 1;

    let total = shdr_offset as usize + shentsize as usize * shnum as usize;
    let mut elf = vec![0u8; total];

    elf[0..4].copy_from_slice(b"\x7fELF");
    elf[4] = 2;
    elf[5] = 1;
    elf[6] = 1;
    elf[16..18].copy_from_slice(&2u16.to_le_bytes());
    elf[18..20].copy_from_slice(&62u16.to_le_bytes());
    elf[20..24].copy_from_slice(&1u32.to_le_bytes());
    elf[40..48].copy_from_slice(&shdr_offset.to_le_bytes());
    elf[48..52].copy_from_slice(&0u32.to_le_bytes());
    elf[52..54].copy_from_slice(&(ehdr_size as u16).to_le_bytes());
    elf[54..56].copy_from_slice(&0u16.to_le_bytes());
    elf[56..58].copy_from_slice(&0u16.to_le_bytes());
    elf[58..60].copy_from_slice(&(shentsize as u16).to_le_bytes());
    elf[60..62].copy_from_slice(&shnum.to_le_bytes());
    elf[62..64].copy_from_slice(&shstrndx.to_le_bytes());

    let so = strtab_offset as usize;
    elf[so..so + strtab.len()].copy_from_slice(&strtab);

    let sdo = section_data_offset as usize;
    elf[sdo..sdo + section_data_size].copy_from_slice(&initial);

    let off = shdr_offset as usize + shentsize as usize;
    elf[off..off + 4].copy_from_slice(&1u32.to_le_bytes());
    elf[off + 4..off + 8].copy_from_slice(&3u32.to_le_bytes());
    elf[off + 24..off + 32].copy_from_slice(&strtab_offset.to_le_bytes());
    elf[off + 32..off + 40].copy_from_slice(&(strtab.len() as u64).to_le_bytes());

    let off = shdr_offset as usize + shentsize as usize * 2;
    elf[off..off + 4].copy_from_slice(&section_name_offset.to_le_bytes());
    elf[off + 4..off + 8].copy_from_slice(&1u32.to_le_bytes());
    elf[off + 24..off + 32].copy_from_slice(&section_data_offset.to_le_bytes());
    elf[off + 32..off + 40].copy_from_slice(&(section_data_size as u64).to_le_bytes());

    elf
}

fn entry(exec: &str) -> DesktopEntry {
    DesktopEntry {
        path: "/tmp/test.desktop".to_string(),
        name: "Test".to_string(),
        exec_value: exec.to_string(),
        icon_name: None,
    }
}

fn no_env() -> BuildEnv {
    BuildEnv {
        appimage_arch: None,
        host_arch: "x86_64".to_string(),
        optimize_launch: None,
        uruntime_preload: None,
        devel_release: None,
        optimize_launch_timeout: None,
        upinfo: None,
        github_repository: None,
        add_perma_env_vars: None,
        dwarfsprof: None,
        dwarfs_link: None,
        version: None,
        home_version_file: None,
    }
}

fn args_with_appdir() -> CliArgs {
    CliArgs {
        appdir: Some("/tmp/AppDir".to_string()),
        ..Default::default()
    }
}

// ─── config ──────────────────────────────────────────────────────────

#[test]
fn test_strip_epoch() {
    assert_eq!(strip_epoch("1:2.0.1"), "2.0.1");
    assert_eq!(strip_epoch("2.0.1"), "2.0.1");
    assert_eq!(strip_epoch("1:"), "");
    assert_eq!(strip_epoch(""), "");
    assert_eq!(strip_epoch("0:1.0.0-alpha"), "1.0.0-alpha");
}

#[test]
fn test_config_custom_compression() {
    let config = Config::from_cli_args(
        CliArgs {
            dwarfs_comp: Some("zstd:level=1".to_string()),
            ..args_with_appdir()
        },
        &no_env(),
    )
    .unwrap();
    assert_eq!(config.dwarfs_comp, "zstd:level=1");
}

#[test]
fn test_config_update_info_passthrough() {
    let config = Config::from_cli_args(
        CliArgs {
            update_info: Some("gh-releases-zsync|org|repo|latest|*.AppImage.zsync".to_string()),
            ..args_with_appdir()
        },
        &no_env(),
    )
    .unwrap();
    assert_eq!(
        config.update_info.as_deref(),
        Some("gh-releases-zsync|org|repo|latest|*.AppImage.zsync")
    );
}

#[test]
fn test_config_output_name_override() {
    let config = Config::from_cli_args(
        CliArgs {
            output_name: Some("custom.AppImage".to_string()),
            ..args_with_appdir()
        },
        &no_env(),
    )
    .unwrap();
    assert_eq!(config.output_name.as_deref(), Some("custom.AppImage"));
}

#[test]
fn test_config_runtime_path() {
    let config = Config::from_cli_args(
        CliArgs {
            runtime: Some("/opt/uruntime".to_string()),
            ..args_with_appdir()
        },
        &no_env(),
    )
    .unwrap();
    assert_eq!(config.runtime.as_deref(), Some("/opt/uruntime"));
}

#[test]
fn test_config_env_vars_from_string() {
    let vars: Vec<String> = env_var_lines("FOO=bar\nBAZ=qux");
    assert_eq!(vars, vec!["FOO=bar", "BAZ=qux"]);
}

#[test]
fn test_config_defaults() {
    let config = Config::from_cli_args(
        CliArgs {
            appdir: Some("/tmp/test/AppDir".to_string()),
            tmpdir: Some("/tmp/test".to_string()),
            ..Default::default()
        },
        &no_env(),
    )
    .unwrap();

    assert!(config.appdir.ends_with("AppDir"));
    assert_eq!(config.output_dir, ".");
    assert!(!config.optimize_launch);
    assert!(!config.keep_mount);
    assert!(!config.devel_release);
    assert_eq!(config.profile_timeout, 10);
    assert_eq!(config.dwarfs_comp, "zstd:level=22 -S26 -B6");
}

#[test]
fn test_config_display_arch_does_not_change_runtime_arch() {
    let config = Config::from_cli_args(
        CliArgs {
            appdir: Some("/tmp/test/AppDir".to_string()),
            arch: Some("amd64-alias".to_string()),
            tmpdir: Some("/tmp/test".to_string()),
            ..Default::default()
        },
        &no_env(),
    )
    .unwrap();

    assert_eq!(config.arch, "amd64-alias");
    assert_ne!(config.appimage_arch, "amd64-alias");
}

#[test]
fn test_config_arch_falls_back_to_appimage_arch() {
    let config = Config::from_cli_args(
        CliArgs {
            appdir: Some("/tmp/test/AppDir".to_string()),
            appimage_arch: Some("aarch64".to_string()),
            tmpdir: Some("/tmp/test".to_string()),
            ..Default::default()
        },
        &no_env(),
    )
    .unwrap();

    assert_eq!(config.appimage_arch, "aarch64");
    assert_eq!(config.arch, "aarch64");
}

#[test]
fn test_config_arch_alias_keeps_runtime_arch() {
    let config = Config::from_cli_args(
        CliArgs {
            appdir: Some("/tmp/test/AppDir".to_string()),
            appimage_arch: Some("x86_64".to_string()),
            arch: Some("amd64".to_string()),
            tmpdir: Some("/tmp/test".to_string()),
            ..Default::default()
        },
        &no_env(),
    )
    .unwrap();

    assert_eq!(config.appimage_arch, "x86_64");
    assert_eq!(config.arch, "amd64");
}

// ─── desktop entries ─────────────────────────────────────────────────

#[test]
fn test_parse_key_basic() {
    let content = "[Desktop Entry]\nName=MyApp\nExec=myapp\nIcon=myapp\n";
    assert_eq!(parse_key(content, "Name"), Some("MyApp".to_string()));
    assert_eq!(parse_key(content, "Exec"), Some("myapp".to_string()));
    assert_eq!(parse_key(content, "Icon"), Some("myapp".to_string()));
    assert_eq!(parse_key(content, "Comment"), None);
}

#[test]
fn test_parse_key_with_spaces() {
    let content = "Name=My App\nExec=/usr/bin/my app\n";
    assert_eq!(parse_key(content, "Name"), Some("My App".to_string()));
    assert_eq!(
        parse_key(content, "Exec"),
        Some("/usr/bin/my app".to_string())
    );
}

#[test]
fn test_parse_key_strips_crlf() {
    let content = "Name=MyApp\r\nExec=myapp\r\n";
    assert_eq!(parse_key(content, "Name"), Some("MyApp".to_string()));
    assert_eq!(parse_key(content, "Exec"), Some("myapp".to_string()));
}

#[test]
fn test_parse_key_quoted() {
    let content = "Exec=\"myapp\"\n";
    assert_eq!(parse_key(content, "Exec"), Some("myapp".to_string()));
}

#[test]
fn test_parse_key_empty_value() {
    let content = "Name=\n";
    assert_eq!(parse_key(content, "Name"), Some("".to_string()));
}

#[test]
fn test_parse_key_no_match() {
    let content = "Name=Test\n";
    assert_eq!(parse_key(content, "Version"), None);
}

#[test]
fn test_main_binary_simple() {
    assert_eq!(entry("myapp").main_binary(), Some("myapp"));
}

#[test]
fn test_main_binary_with_args() {
    assert_eq!(entry("myapp --flag value").main_binary(), Some("myapp"));
}

#[test]
fn test_main_binary_with_path() {
    assert_eq!(entry("/usr/bin/myapp").main_binary(), Some("myapp"));
}

#[test]
fn test_main_binary_quoted_path() {
    assert_eq!(entry("\"/opt/myapp\"").main_binary(), Some("myapp"));
}

#[test]
fn test_compute_output_name_basic() {
    let name = compute_output_name("MyApp", Some("1.0"), "x86_64");
    assert_eq!(name, "MyApp-1.0-anylinux-x86_64.AppImage");
}

#[test]
fn test_compute_output_name_empty_version() {
    let name = compute_output_name("MyApp", Some(""), "x86_64");
    assert_eq!(name, "MyApp-anylinux-x86_64.AppImage");
}

#[test]
fn test_compute_output_name_no_version() {
    let name = compute_output_name("MyApp", None, "aarch64");
    assert_eq!(name, "MyApp-anylinux-aarch64.AppImage");
}

#[test]
fn test_compute_output_name_sanitizes_version() {
    let name = compute_output_name("MyApp", Some("1.0:beta"), "x86_64");
    assert_eq!(name, "MyApp-1.0_beta-anylinux-x86_64.AppImage");
}

#[test]
fn test_output_name_with_version() {
    let name = compute_output_name("MyApp", Some("2.0.1"), "x86_64");
    assert_eq!(name, "MyApp-2.0.1-anylinux-x86_64.AppImage");
}

#[test]
fn test_output_name_without_version() {
    let name = compute_output_name("MyApp", None, "aarch64");
    assert_eq!(name, "MyApp-anylinux-aarch64.AppImage");
}

#[test]
fn test_output_name_sanitizes_special_chars() {
    let name = compute_output_name("My App: Cool*", Some("1.0"), "x86_64");
    assert_eq!(name, "My_App__Cool-1.0-anylinux-x86_64.AppImage");
}

#[test]
fn test_check_dir_icon_missing() {
    assert!(DesktopEntry::check_dir_icon(false).is_err());
    assert!(DesktopEntry::check_dir_icon(true).is_ok());
}

#[test]
fn test_check_apprun_missing() {
    assert!(DesktopEntry::check_apprun(false).is_err());
    assert!(DesktopEntry::check_apprun(true).is_ok());
}

// ─── ELF sections ────────────────────────────────────────────────────

#[test]
fn test_roundtrip_section() {
    let mut elf = create_test_elf(b".test", b"initial_data");

    let section = read_section(&elf, ".test").unwrap();
    assert_eq!(&section[..12], b"initial_data");

    write_section(&mut elf, ".test", b"new_data").unwrap();
    let section = read_section(&elf, ".test").unwrap();
    assert!(section.starts_with(b"new_data\x00"));
}

#[test]
fn test_write_overflow() {
    let elf = create_test_elf(b".test", b"short");
    let mut elf = elf;
    let result = write_section(&mut elf, ".test", b"this_is_way_too_long_for_the_section");
    assert!(result.is_err());
}

#[test]
fn test_section_not_found() {
    let elf = create_test_elf(b".test", b"data");
    assert!(read_section(&elf, ".nonexistent").is_none());
}

#[test]
fn test_parse_rejects_short_input() {
    assert!(read_section(b"", ".test").is_none());
    assert!(read_section(b"\x7fELF", ".test").is_none());
    assert!(read_section(&[0u8; 32], ".test").is_none());
}

#[test]
fn test_parse_rejects_garbled_section_offsets() {
    let mut elf = create_test_elf(b".test", b"data");
    elf[40..48].copy_from_slice(&u64::MAX.to_le_bytes());
    assert!(read_section(&elf, ".test").is_none());
    assert!(write_section(&mut elf.clone(), ".test", b"x").is_err());
}

#[test]
fn test_parse_rejects_oversized_strndx() {
    let mut elf = create_test_elf(b".test", b"data");
    elf[62..64].copy_from_slice(&999u16.to_le_bytes());
    assert!(read_section(&elf, ".test").is_none());
}

#[test]
fn test_random_garbage_does_not_panic() {
    let mut elf = vec![0u8; 256];
    elf[0..4].copy_from_slice(b"\x7fELF");
    elf[4] = 2;
    elf[5] = 1;
    for byte in elf.iter_mut().skip(6) {
        *byte = 0xff;
    }
    let _ = read_section(&elf, ".test");
}

// ─── logging levels ──────────────────────────────────────────────────

#[test]
fn test_level_clamping() {
    assert_eq!(init(5), LEVEL_DEBUG);
    assert_eq!(init(-10), LEVEL_ERROR);
}

#[test]
fn test_init_default() {
    assert_eq!(init(0), LEVEL_INFO);
}

#[test]
fn test_init_quiet() {
    assert_eq!(init(-1), LEVEL_WARN);
    assert_eq!(init(-2), LEVEL_ERROR);
}

#[test]
fn test_init_verbose() {
    assert_eq!(init(1), LEVEL_DEBUG);
}

#[test]
fn quiet_levels_let_through_only_what_they_name() {
    assert!(shows(LEVEL_INFO, LEVEL_INFO));
    assert!(!shows(LEVEL_INFO, LEVEL_DEBUG));
    assert!(!shows(LEVEL_WARN, LEVEL_INFO));
    assert!(shows(LEVEL_WARN, LEVEL_WARN));
    assert!(!shows(LEVEL_ERROR, LEVEL_WARN));
    assert!(shows(LEVEL_ERROR, LEVEL_ERROR));
    assert!(shows(LEVEL_DEBUG, LEVEL_DEBUG));
}

// ─── keep-mount patch ────────────────────────────────────────────────

#[test]
fn patch_keep_mount_rewrites_digit() {
    let mut data = Vec::new();
    data.extend_from_slice(&[0u8; 64]);
    data.extend_from_slice(b"URUNTIME_MOUNT=3");
    data.extend_from_slice(&[0u8; 32]);
    let digit_idx = 64 + MOUNT_MARKER.len();

    patch_keep_mount(&mut data).unwrap();
    assert_eq!(data[digit_idx], b'0');
}

#[test]
fn patch_keep_mount_rewrites_all_occurrences() {
    let prefix_a = b"URUNTIME_MOUNT=3";
    let gap = [0u8; 16];
    let prefix_b = b"URUNTIME_MOUNT=2";
    let mut data = Vec::new();
    data.extend_from_slice(prefix_a);
    data.extend_from_slice(&gap);
    data.extend_from_slice(prefix_b);
    let first = MOUNT_MARKER.len();
    let second = prefix_a.len() + gap.len() + MOUNT_MARKER.len();

    patch_keep_mount(&mut data).unwrap();
    assert_eq!(data[first], b'0');
    assert_eq!(data[second], b'0');
}

#[test]
fn patch_keep_mount_idempotent_on_zero() {
    let mut data = b"...URUNTIME_MOUNT=0...".to_vec();
    let before = data.clone();
    patch_keep_mount(&mut data).unwrap();
    assert_eq!(data, before);
}

#[test]
fn patch_keep_mount_skips_non_digit_followers() {
    let mut data = b"URUNTIME_MOUNT==0".to_vec();
    assert!(patch_keep_mount(&mut data).is_err());
}

#[test]
fn patch_keep_mount_errors_when_absent() {
    let mut data = vec![0u8; 256];
    assert!(patch_keep_mount(&mut data).is_err());
}

// ─── filenames ───────────────────────────────────────────────────────

#[test]
fn test_sanitize_filename_whitespace() {
    assert_eq!(sanitize_filename("hello world"), "hello_world");
}

#[test]
fn test_sanitize_filename_colon() {
    assert_eq!(sanitize_filename("app:name"), "app_name");
}

#[test]
fn test_sanitize_filename_dots_and_dashes() {
    assert_eq!(sanitize_filename("my-app-1.0"), "my-app-1.0");
}

#[test]
fn test_sanitize_filename_trailing_underscores() {
    assert_eq!(sanitize_filename("app***"), "app");
}

#[test]
fn test_sanitize_filename_all_special() {
    assert_eq!(sanitize_filename("<>:\"|?*"), "");
}

#[test]
fn test_sanitize_filename_mixed() {
    assert_eq!(sanitize_filename("My App v2.0 (beta)"), "My_App_v2.0_(beta)");
}

#[test]
fn test_sanitize_filename_newlines() {
    assert_eq!(sanitize_filename("line1\nline2"), "line1_line2");
}

#[test]
fn test_sanitize_filename_empty() {
    assert_eq!(sanitize_filename(""), "");
}

#[test]
fn test_sanitize_filename_path_separators() {
    assert_eq!(sanitize_filename("../etc/passwd"), ".._etc_passwd");
    assert_eq!(sanitize_filename(r"foo\bar"), "foo_bar");
    assert_eq!(sanitize_filename("a/b/c"), "a_b_c");
}

#[test]
fn test_sanitize_filename_nul_and_control() {
    assert_eq!(sanitize_filename("foo\0bar"), "foo_bar");
    assert_eq!(sanitize_filename("foo\x07bar"), "foo_bar");
}

#[test]
fn test_sanitize_filename() {
    assert_eq!(sanitize_filename("hello world"), "hello_world");
    assert_eq!(sanitize_filename("app:name"), "app_name");
    assert_eq!(sanitize_filename("normal-name"), "normal-name");
    assert_eq!(sanitize_filename("trailing___"), "trailing");
    assert_eq!(sanitize_filename("a>b<c*d|e?f"), "a_b_c_d_e_f");
}

#[test]
fn sanitizing_twice_changes_nothing_more() {
    for s in ["My App: Cool*", "a//b__", "  x  ", "", "__", "ok"] {
        let once = sanitize_filename(s);
        assert_eq!(sanitize_filename(&once), once);
    }
}

// ─── errors ──────────────────────────────────────────────────────────

#[test]
fn test_error_messages() {
    let err = Error::NoDesktopEntry;
    assert!(err.message().contains(".desktop"));

    let err = Error::NoDirIcon;
    assert!(err.message().contains(".DirIcon"));

    let err = Error::NoAppRun;
    assert!(err.message().contains("AppRun"));

    let err = Error::SectionNotFound(".test".to_string());
    assert!(err.message().contains(".test"));
}

#[test]
fn an_overflow_names_both_sizes() {
    let err = Error::SectionOverflow {
        name: ".envs".to_string(),
        size: 120,
        capacity: 64,
    };
    assert_eq!(
        err.message(),
        "Data too large for ELF section '.envs': 120 > 64 bytes\n  hint: shorten the value or use a runtime with larger ELF sections"
    );
}

#[test]
fn patching_touches_only_digits_after_a_marker() {
    let mut data = Vec::new();
    data.extend_from_slice(b"7URUNTIME_MOUNT=5xURUNTIME_MOUNT=y9URUNTIME_MOUNT=");
    let before = data.clone();
    patch_keep_mount(&mut data).unwrap();
    let mut expected = before.clone();
    expected[16] = b'0';
    assert_eq!(data, expected);
}
