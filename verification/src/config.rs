//! Resolved build configuration plus the [`CliArgs`] input that produces it.
//!
//! The environment is read by the caller and handed over as a [`BuildEnv`],
//! so the merge of flags, environment and defaults is a function of values.

use vstd::prelude::*;

use crate::error::Error;
use crate::text::{
    opt_chars, chars_of, is_digit, lines, lines_of, push_all, rows, seq_eq, split, split_chars,
    string_of, trim, trim_chars,
};
use crate::util::{join_path, path_join};

verus! {

/// Fully resolved build configuration, produced by [`Config::from_cli_args`].
/// CLI flags, env-var fallbacks, and built-in defaults are all merged here, so
/// downstream code can treat this struct as authoritative.
#[derive(Debug)]
pub struct Config {
    /// Directory holding the AppDir contents.
    pub appdir: String,
    /// Directory the final `.AppImage` (and zsync) will be written to.
    pub output_dir: String,
    /// Override for the output filename; otherwise derived from desktop entry.
    pub output_name: Option<String>,
    /// Runtime architecture used for downloading uruntime/mkdwarfs and for
    /// the `X-AppImage-Arch` metadata.
    pub appimage_arch: String,
    /// Display architecture used in the output filename (e.g. `amd64`).
    pub arch: String,
    /// Explicit uruntime binary to embed; resolved/downloaded if `None`.
    pub runtime: Option<String>,
    /// Override URL for downloading the uruntime.
    pub runtime_url: Option<String>,
    /// Compression options passed to `mkdwarfs`.
    pub dwarfs_comp: String,
    /// `upd_info` ELF section payload (zsync URL or similar).
    pub update_info: Option<String>,
    /// Permanent env-var lines to bake into the runtime's `.envs` section.
    pub env_vars: Vec<String>,
    /// Existing DWARFS profile to seed the build with.
    pub dwarfs_profile: Option<String>,
    /// If true, run a profiling pass before the final build.
    pub optimize_launch: bool,
    /// Resolved package version, if discovered from `VERSION` or `~/version`.
    pub version: Option<String>,
    /// Override `mkdwarfs` binary path; resolved from PATH/cache otherwise.
    pub mkdwarfs: Option<String>,
    /// Override URL for downloading `mkdwarfs`.
    pub dwarfs_url: Option<String>,
    /// Temp directory used for caches, working copies, and FUSE mounts.
    pub tmpdir: String,
    /// Patch the runtime to keep the FUSE mount alive after exit.
    pub keep_mount: bool,
    /// Tag the build as a nightly/devel release (rewrites desktop name + zsync).
    pub devel_release: bool,
    /// How long, in seconds, to let the AppImage run during the DWARFS
    /// profiling pass before tearing it down.
    pub profile_timeout: u64,
}

/// Inputs gathered from the CLI (or set explicitly by library callers).
/// `Default` produces `None`/`false` for every field.
#[derive(Debug)]
pub struct CliArgs {
    /// AppDir path; defaults to `./AppDir`.
    pub appdir: Option<String>,
    /// Output directory; defaults to `.`.
    pub output: Option<String>,
    /// Override for the output filename.
    pub output_name: Option<String>,
    /// Runtime architecture (download URL + `X-AppImage-Arch` metadata).
    pub appimage_arch: Option<String>,
    /// Display architecture used in the output filename.
    pub arch: Option<String>,
    /// Path to a pre-supplied uruntime binary.
    pub runtime: Option<String>,
    /// URL for downloading the uruntime.
    pub runtime_url: Option<String>,
    /// `upd_info` payload override (e.g. a zsync URL).
    pub update_info: Option<String>,
    /// `mkdwarfs` compression option string.
    pub dwarfs_comp: Option<String>,
    /// Enable the DWARFS profiling pass.
    pub optimize_launch: bool,
    /// Path to an existing DWARFS profile to feed into the build.
    pub dwarfs_profile: Option<String>,
    /// Path to a pre-supplied `mkdwarfs` binary.
    pub mkdwarfs: Option<String>,
    /// URL for downloading `mkdwarfs`.
    pub dwarfs_url: Option<String>,
    /// Override TMPDIR.
    pub tmpdir: Option<String>,
    /// Patch the runtime to keep the FUSE mount alive after exit.
    pub keep_mount: bool,
    /// Tag the build as a nightly/devel release.
    pub devel_release: bool,
    /// Override the DWARFS profiling timeout (seconds). Defaults to `10`.
    pub profile_timeout: Option<u64>,
}

impl Default for CliArgs {
    fn default() -> (r: CliArgs)
        ensures
            r.appdir is None && r.output is None && r.output_name is None && r.appimage_arch is None
                && r.arch is None && r.runtime is None && r.runtime_url is None && r.update_info is None
                && r.dwarfs_comp is None && !r.optimize_launch && r.dwarfs_profile is None
                && r.mkdwarfs is None && r.dwarfs_url is None && r.tmpdir is None && !r.keep_mount
                && !r.devel_release && r.profile_timeout is None,
    {
        CliArgs {
            appdir: None,
            output: None,
            output_name: None,
            appimage_arch: None,
            arch: None,
            runtime: None,
            runtime_url: None,
            update_info: None,
            dwarfs_comp: None,
            optimize_launch: false,
            dwarfs_profile: None,
            mkdwarfs: None,
            dwarfs_url: None,
            tmpdir: None,
            keep_mount: false,
            devel_release: false,
            profile_timeout: None,
        }
    }
}

/// The values of the environment the configuration falls back to, each
/// `None` where the variable is unset.
#[derive(Debug)]
pub struct BuildEnv {
    /// `APPIMAGE_ARCH`.
    pub appimage_arch: Option<String>,
    /// The architecture the tool was built for.
    pub host_arch: String,
    /// `OPTIMIZE_LAUNCH`.
    pub optimize_launch: Option<String>,
    /// `URUNTIME_PRELOAD`.
    pub uruntime_preload: Option<String>,
    /// `DEVEL_RELEASE`.
    pub devel_release: Option<String>,
    /// `OPTIMIZE_LAUNCH_TIMEOUT`.
    pub optimize_launch_timeout: Option<String>,
    /// `UPINFO`.
    pub upinfo: Option<String>,
    /// `GITHUB_REPOSITORY`.
    pub github_repository: Option<String>,
    /// `ADD_PERMA_ENV_VARS`.
    pub add_perma_env_vars: Option<String>,
    /// `DWARFSPROF`.
    pub dwarfsprof: Option<String>,
    /// `DWARFS_LINK`.
    pub dwarfs_link: Option<String>,
    /// `VERSION`.
    pub version: Option<String>,
    /// The text of `~/version`, where that file exists and reads.
    pub home_version_file: Option<String>,
}

/// `a`, or `b` where `a` is absent.
pub open spec fn or_else(a: Option<Seq<char>>, b: Option<Seq<char>>) -> Option<Seq<char>> {
    match a {
        Some(x) => Some(x),
        None => b,
    }
}

/// `a`, or `b` where `a` is absent.
pub open spec fn or_default(a: Option<Seq<char>>, b: Seq<char>) -> Seq<char> {
    match a {
        Some(x) => x,
        None => b,
    }
}

/// A setting the environment switches on: trimmed, one of the spellings of
/// yes.
pub open spec fn spec_truthy(v: Option<Seq<char>>) -> bool {
    match v {
        None => false,
        Some(s) => {
            let t = trim(s);
            t == "1"@ || t == "true"@ || t == "TRUE"@ || t == "True"@ || t == "yes"@ || t
                == "YES"@ || t == "Yes"@ || t == "on"@ || t == "ON"@ || t == "On"@
        },
    }
}

/// The decimal value of the digits `s`.
pub open spec fn digits_value(s: Seq<char>) -> int
    decreases s.len(),
{
    if s.len() == 0 {
        0
    } else {
        digits_value(s.drop_last()) * 10 + (s.last() as int - '0' as int)
    }
}

/// Every character of `d` is an ASCII digit.
pub open spec fn all_digits(d: Seq<char>) -> bool {
    forall|k: int| 0 <= k < d.len() ==> is_digit(#[trigger] d[k])
}

/// What `str::parse::<u64>` gives for `s`: an optional `+`, then one or more
/// ASCII digits, whose value fits.
pub open spec fn spec_parse_u64(s: Seq<char>) -> Option<u64> {
    let d = if s.len() > 0 && s[0] == '+' {
        s.subrange(1, s.len() as int)
    } else {
        s
    };
    if d.len() > 0 && all_digits(d) && digits_value(d) <= u64::MAX {
        Some(digits_value(d) as u64)
    } else {
        None
    }
}

/// The index of the first `c` in `s` at or after `i`, or the length of `s`.
pub open spec fn find_char(s: Seq<char>, c: char, i: int) -> int
    decreases s.len() - i,
{
    if i >= s.len() {
        s.len() as int
    } else if s[i] == c {
        i
    } else {
        find_char(s, c, i + 1)
    }
}

/// `version` without everything up to and including its first colon.
pub open spec fn spec_strip_epoch(v: Seq<char>) -> Seq<char> {
    let i = find_char(v, ':', 0);
    if i < v.len() {
        v.subrange(i + 1, v.len() as int)
    } else {
        v
    }
}

/// The version: `VERSION`, else the trimmed text of `~/version`, without its
/// epoch.
pub open spec fn spec_resolve_version(env_version: Option<Seq<char>>, file: Option<Seq<char>>) -> Option<
    Seq<char>,
> {
    match env_version {
        Some(v) => Some(spec_strip_epoch(v)),
        None => match file {
            Some(f) => Some(spec_strip_epoch(trim(f))),
            None => None,
        },
    }
}

/// The runtime architecture under its `uname -m` spelling.
pub open spec fn spec_normalize_arch(a: Seq<char>) -> Seq<char> {
    if a == "powerpc64"@ {
        "ppc64"@
    } else if a == "powerpc64le"@ {
        "ppc64le"@
    } else {
        a
    }
}

/// The update information a GitHub repository `owner/name` publishes.
pub open spec fn spec_repo_update_info(repo: Seq<char>, arch: Seq<char>) -> Seq<char> {
    let parts = split(repo, '/');
    if parts.len() == 2 {
        "gh-releases-zsync|"@ + parts[0] + "|"@ + parts[1] + "|latest|*"@ + arch
            + ".AppImage.zsync"@
    } else {
        repo
    }
}

/// The configuration that `args` and the environment `env` resolve to.
pub open spec fn spec_config_ok(c: Config, args: CliArgs, env: BuildEnv) -> bool {
    let rt_arch = spec_normalize_arch(
        or_default(or_else(opt_chars(args.appimage_arch), opt_chars(env.appimage_arch)), env.host_arch@),
    );
    let arch = or_default(opt_chars(args.arch), rt_arch);
    let appdir = or_default(opt_chars(args.appdir), "./AppDir"@);
    let optimize = args.optimize_launch || spec_truthy(opt_chars(env.optimize_launch));
    &&& c.appimage_arch@ == rt_arch
    &&& c.arch@ == arch
    &&& c.appdir@ == appdir
    &&& c.tmpdir@ == or_default(opt_chars(args.tmpdir), "/tmp"@)
    &&& c.output_dir@ == or_default(opt_chars(args.output), "."@)
    &&& opt_chars(c.output_name) == opt_chars(args.output_name)
    &&& opt_chars(c.runtime) == opt_chars(args.runtime)
    &&& opt_chars(c.runtime_url) == opt_chars(args.runtime_url)
    &&& opt_chars(c.mkdwarfs) == opt_chars(args.mkdwarfs)
    &&& c.optimize_launch == optimize
    &&& c.keep_mount == (args.keep_mount || spec_truthy(opt_chars(env.uruntime_preload)))
    &&& c.devel_release == (args.devel_release || spec_truthy(opt_chars(env.devel_release)))
    &&& c.profile_timeout == match args.profile_timeout {
        Some(t) => t,
        None => match opt_chars(env.optimize_launch_timeout) {
            Some(s) => match spec_parse_u64(s) {
                Some(t) => t,
                None => 10,
            },
            None => 10,
        },
    }
    &&& opt_chars(c.update_info) == match or_else(opt_chars(args.update_info), opt_chars(env.upinfo)) {
        Some(u) => Some(u),
        None => match opt_chars(env.github_repository) {
            Some(r) => Some(spec_repo_update_info(r, arch)),
            None => None,
        },
    }
    &&& c.env_vars@.map_values(|s: String| s@) == match opt_chars(env.add_perma_env_vars) {
        Some(s) => lines(s),
        None => Seq::empty(),
    }
    &&& opt_chars(c.dwarfs_profile) == match or_else(opt_chars(args.dwarfs_profile), opt_chars(env.dwarfsprof)) {
        Some(p) => Some(p),
        None => if optimize {
            Some(path_join(appdir, ".dwarfsprofile"@))
        } else {
            None
        },
    }
    &&& c.dwarfs_comp@ == or_default(opt_chars(args.dwarfs_comp), "zstd:level=22 -S26 -B6"@)
    &&& opt_chars(c.version) == spec_resolve_version(opt_chars(env.version), opt_chars(env.home_version_file))
    &&& opt_chars(c.dwarfs_url) == or_else(opt_chars(args.dwarfs_url), opt_chars(env.dwarfs_link))
}

fn clone_opt(o: &Option<String>) -> (r: Option<String>)
    ensures
        opt_chars(r) == opt_chars(*o),
{
    match o {
        Some(s) => Some(s.clone()),
        None => None,
    }
}

fn str_eq(a: &str, b: &str) -> (r: bool)
    ensures
        r == (a@ == b@),
{
    seq_eq(&chars_of(a), &chars_of(b))
}

/// Whether an environment value switches a setting on.
pub fn env_truthy(value: Option<&str>) -> (b: bool)
    ensures
        b == spec_truthy(
            match value {
                Some(v) => Some(v@),
                None => None,
            },
        ),
{
    match value {
        None => false,
        Some(v) => {
            let t = trim_chars(&chars_of(v));
            let s = string_of(&t);
            let s = s.as_str();
            str_eq(s, "1") || str_eq(s, "true") || str_eq(s, "TRUE") || str_eq(s, "True")
                || str_eq(s, "yes") || str_eq(s, "YES") || str_eq(s, "Yes") || str_eq(s, "on")
                || str_eq(s, "ON") || str_eq(s, "On")
        },
    }
}

/// Parse an unsigned decimal number as `str::parse::<u64>` does.
pub fn parse_u64(s: &str) -> (r: Option<u64>)
    ensures
        r == spec_parse_u64(s@),
{
    let v = chars_of(s);
    let start: usize = if v.len() > 0 && v[0] == '+' {
        1
    } else {
        0
    };
    let ghost d = if v@.len() > 0 && v@[0] == '+' {
        v@.subrange(1, v@.len() as int)
    } else {
        v@
    };
    assert(d =~= v@.subrange(start as int, v@.len() as int));
    if start >= v.len() {
        return None;
    }
    let mut acc: u64 = 0;
    let mut i = start;
    while i < v.len()
        invariant
            start <= i <= v@.len(),
            v@ == s@,
            d == (if s@.len() > 0 && s@[0] == '+' {
                s@.subrange(1, s@.len() as int)
            } else {
                s@
            }),
            d == v@.subrange(start as int, v@.len() as int),
            forall|k: int| start <= k < i ==> is_digit(#[trigger] v@[k]),
            acc == digits_value(v@.subrange(start as int, i as int)),
        decreases v.len() - i,
    {
        let c = v[i];
        assert(d[i - start] == v@[i as int]);
        if !('0' <= c && c <= '9') {
            assert(!is_digit(d[i - start]));
            assert(!all_digits(d));
            return None;
        }
        let digit = (c as u32 - '0' as u32) as u64;
        assert(v@.subrange(start as int, i + 1).drop_last() =~= v@.subrange(start as int, i as int));
        assert(digits_value(v@.subrange(start as int, i + 1)) == acc * 10 + digit);
        let m = acc.checked_mul(10);
        let n = match m {
            Some(m) => m.checked_add(digit),
            None => None,
        };
        if n.is_none() {
            proof {
                if all_digits(d) {
                    lemma_digits_grow(d, i - start + 1);
                    assert(d.subrange(0, i - start + 1) =~= v@.subrange(start as int, i + 1));
                    assert(acc * 10 + digit > u64::MAX);
                    assert(digits_value(d) > u64::MAX);
                }
            }
            return None;
        }
        let n = n.unwrap();
        acc = n;
        i = i + 1;
    }
    Some(acc)
}

/// A longer prefix of digits is worth at least as much as a shorter one.
proof fn lemma_digits_grow(d: Seq<char>, n: int)
    requires
        0 <= n <= d.len(),
        forall|k: int| 0 <= k < d.len() ==> is_digit(#[trigger] d[k]),
    ensures
        digits_value(d.subrange(0, n)) <= digits_value(d),
        digits_value(d.subrange(0, n)) >= 0,
    decreases d.len(),
{
    if d.len() > 0 {
        if n == d.len() {
            assert(d.subrange(0, n) =~= d);
            lemma_digits_nonneg(d);
        } else {
            lemma_digits_grow(d.drop_last(), n);
            assert(d.drop_last().subrange(0, n) =~= d.subrange(0, n));
            lemma_digits_nonneg(d.drop_last());
        }
    } else {
        assert(d.subrange(0, n) =~= d);
    }
}

proof fn lemma_digits_nonneg(d: Seq<char>)
    requires
        forall|k: int| 0 <= k < d.len() ==> is_digit(#[trigger] d[k]),
    ensures
        digits_value(d) >= 0,
    decreases d.len(),
{
    if d.len() > 0 {
        lemma_digits_nonneg(d.drop_last());
    }
}

/// Strip the epoch prefix from a version string: everything up to and
/// including the first colon. `"1:2.0.1"` becomes `"2.0.1"`.
pub fn strip_epoch(version: &str) -> (r: String)
    ensures
        r@ == spec_strip_epoch(version@),
{
    let v = chars_of(version);
    let mut i: usize = 0;
    while i < v.len() && v[i] != ':'
        invariant
            i <= v@.len(),
            find_char(v@, ':', i as int) == find_char(v@, ':', 0),
        decreases v.len() - i,
    {
        i = i + 1;
    }
    if i < v.len() {
        string_of(&crate::text::slice_chars(&v, i + 1, v.len()))
    } else {
        string_of(&v)
    }
}

/// The lines of `s`, one string each.
pub fn env_var_lines(s: &str) -> (r: Vec<String>)
    ensures
        r@.map_values(|x: String| x@) == lines(s@),
{
    let ls = lines_of(&chars_of(s));
    let mut r: Vec<String> = Vec::new();
    let mut i: usize = 0;
    while i < ls.len()
        invariant
            i <= ls@.len(),
            rows(ls@) == lines(s@),
            r@.map_values(|x: String| x@) == rows(ls@).subrange(0, i as int),
        decreases ls.len() - i,
    {
        let ghost before = r@.map_values(|x: String| x@);
        let line = string_of(&ls[i]);
        r.push(line);
        assert(r@.map_values(|x: String| x@) =~= before.push(ls@[i as int]@));
        assert(rows(ls@).subrange(0, i + 1) =~= rows(ls@).subrange(0, i as int).push(
            ls@[i as int]@,
        ));
        i = i + 1;
    }
    assert(rows(ls@).subrange(0, ls@.len() as int) =~= rows(ls@));
    r
}

/// Resolve the project version from the `VERSION` env var, falling back to
/// the text of `~/version`. Strips an optional `epoch:` prefix.
pub fn resolve_version(env_version: Option<&str>, home_version_file: Option<&str>) -> (r: Option<
    String,
>)
    ensures
        opt_chars(r) == spec_resolve_version(
            match env_version {
                Some(v) => Some(v@),
                None => None,
            },
            match home_version_file {
                Some(v) => Some(v@),
                None => None,
            },
        ),
{
    match env_version {
        Some(v) => Some(strip_epoch(v)),
        None => match home_version_file {
            Some(f) => {
                let t = string_of(&trim_chars(&chars_of(f)));
                Some(strip_epoch(t.as_str()))
            },
            None => None,
        },
    }
}

/// The update information derived from a GitHub repository name.
pub fn repo_update_info(repo: &str, arch: &str) -> (r: String)
    ensures
        r@ == spec_repo_update_info(repo@, arch@),
{
    let parts = split_chars(&chars_of(repo), '/');
    if parts.len() == 2 {
        assert(rows(parts@)[0] == parts@[0]@ && rows(parts@)[1] == parts@[1]@);
        let mut out = chars_of("gh-releases-zsync|");
        push_all(&mut out, parts[0].as_slice());
        push_all(&mut out, &chars_of("|"));
        push_all(&mut out, parts[1].as_slice());
        push_all(&mut out, &chars_of("|latest|*"));
        push_all(&mut out, &chars_of(arch));
        push_all(&mut out, &chars_of(".AppImage.zsync"));
        string_of(&out)
    } else {
        string_of(&chars_of(repo))
    }
}

impl Config {
    /// Resolve a fully-defaulted [`Config`] from CLI inputs and the
    /// environment. Never fails.
    #[verifier::rlimit(60)]
    pub fn from_cli_args(args: CliArgs, env: &BuildEnv) -> (r: Result<Config, Error>)
        ensures
            r matches Ok(c) && spec_config_ok(c, args, *env),
    {
        let raw_arch = match &args.appimage_arch {
            Some(a) => a.clone(),
            None => match &env.appimage_arch {
                Some(a) => a.clone(),
                None => env.host_arch.clone(),
            },
        };
        let appimage_arch = if str_eq(raw_arch.as_str(), "powerpc64") {
            string_of(&chars_of("ppc64"))
        } else if str_eq(raw_arch.as_str(), "powerpc64le") {
            string_of(&chars_of("ppc64le"))
        } else {
            raw_arch
        };
        let arch = match &args.arch {
            Some(a) => a.clone(),
            None => appimage_arch.clone(),
        };
        let appdir = match &args.appdir {
            Some(a) => a.clone(),
            None => string_of(&chars_of("./AppDir")),
        };
        let tmpdir = match &args.tmpdir {
            Some(a) => a.clone(),
            None => string_of(&chars_of("/tmp")),
        };
        let optimize_launch = args.optimize_launch || env_truthy(
            match &env.optimize_launch {
                Some(s) => Some(s.as_str()),
                None => None,
            },
        );
        let keep_mount = args.keep_mount || env_truthy(
            match &env.uruntime_preload {
                Some(s) => Some(s.as_str()),
                None => None,
            },
        );
        let devel_release = args.devel_release || env_truthy(
            match &env.devel_release {
                Some(s) => Some(s.as_str()),
                None => None,
            },
        );
        let profile_timeout = match args.profile_timeout {
            Some(t) => t,
            None => match &env.optimize_launch_timeout {
                Some(s) => match parse_u64(s.as_str()) {
                    Some(t) => t,
                    None => 10,
                },
                None => 10,
            },
        };
        let update_info = match &args.update_info {
            Some(u) => Some(u.clone()),
            None => match &env.upinfo {
                Some(u) => Some(u.clone()),
                None => match &env.github_repository {
                    Some(repo) => Some(repo_update_info(repo.as_str(), arch.as_str())),
                    None => None,
                },
            },
        };
        let env_vars = match &env.add_perma_env_vars {
            Some(s) => env_var_lines(s.as_str()),
            None => Vec::new(),
        };
        proof {
            if env.add_perma_env_vars is None {
                assert(env_vars@.map_values(|s: String| s@) =~= Seq::<Seq<char>>::empty());
            }
        }
        let dwarfs_profile = match &args.dwarfs_profile {
            Some(p) => Some(p.clone()),
            None => match &env.dwarfsprof {
                Some(p) => Some(p.clone()),
                None => if optimize_launch {
                    Some(join_path(appdir.as_str(), ".dwarfsprofile"))
                } else {
                    None
                },
            },
        };
        let dwarfs_comp = match &args.dwarfs_comp {
            Some(c) => c.clone(),
            None => string_of(&chars_of("zstd:level=22 -S26 -B6")),
        };
        let version = resolve_version(
            match &env.version {
                Some(s) => Some(s.as_str()),
                None => None,
            },
            match &env.home_version_file {
                Some(s) => Some(s.as_str()),
                None => None,
            },
        );
        let dwarfs_url = match &args.dwarfs_url {
            Some(u) => Some(u.clone()),
            None => clone_opt(&env.dwarfs_link),
        };
        let output_dir = match &args.output {
            Some(o) => o.clone(),
            None => string_of(&chars_of(".")),
        };
        Ok(
            Config {
                appdir,
                output_dir,
                output_name: clone_opt(&args.output_name),
                appimage_arch,
                arch,
                runtime: clone_opt(&args.runtime),
                runtime_url: clone_opt(&args.runtime_url),
                dwarfs_comp,
                update_info,
                env_vars,
                dwarfs_profile,
                optimize_launch,
                version,
                mkdwarfs: clone_opt(&args.mkdwarfs),
                dwarfs_url,
                tmpdir,
                keep_mount,
                devel_release,
                profile_timeout,
            },
        )
    }
}

} // verus!
