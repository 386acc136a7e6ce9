//! The package manager's configuration: profiles, repositories, display
//! settings, the checks a loaded configuration must pass, and the state the
//! program keeps around it (the configuration in use, the current profile
//! and system mode).
//!
//! Reading files and the environment is the caller's: what they hold comes
//! in as values.

use vstd::prelude::*;

use crate::soar_error::ConfigError;
use crate::text::{
    chars_of, concat, has_char, lemma_filter_prefix, opt_chars, opt_str, replace_all, replace_chars,
    seq_eq, string_of, texts,
};
use crate::util::{join_path, path_join};

verus! {

/// A repository soar reads packages from.
#[derive(Debug)]
pub struct Repository {
    /// Its name, which is also the name of its directory.
    pub name: String,
    /// Where its metadata is fetched from.
    pub url: String,
    /// The key its signatures are checked with.
    pub pubkey: Option<String>,
    /// Whether its packages are integrated into the desktop (default: yes).
    pub desktop_integration: Option<bool>,
    /// Whether it is read at all (default: yes).
    pub enabled: Option<bool>,
    /// Whether its signatures are checked.
    pub signature_verification: Option<bool>,
    /// How often it is synced.
    pub sync_interval: Option<String>,
}

/// A repository soar knows of for the platforms it serves.
#[derive(Debug)]
pub struct RepoInfo {
    /// The repository's name.
    pub name: String,
    /// Its URL, `{}` standing for the platform.
    pub url_template: String,
    /// The key its signatures are checked with.
    pub pubkey: Option<String>,
    /// Whether its packages are integrated into the desktop.
    pub desktop_integration: Option<bool>,
    /// Whether it is read at all.
    pub enabled: Option<bool>,
    /// Whether its signatures are checked.
    pub signature_verification: Option<bool>,
    /// How often it is synced.
    pub sync_interval: Option<String>,
    /// The platforms it publishes packages for.
    pub platforms: Vec<String>,
}

/// A profile: a local package store and its configuration.
#[derive(Debug)]
pub struct Profile {
    /// Root directory for this profile's data and packages.
    pub root_path: String,
    /// Where packages are stored; `root_path/packages` where unset.
    pub packages_path: Option<String>,
}

/// How progress is drawn.
#[derive(Clone, Copy, Debug, PartialEq, Eq)]
pub enum ProgressStyle {
    /// Classic ASCII progress bar.
    Classic,
    /// Modern unicode progress bar with spinner and ETA (the default).
    Modern,
    /// Minimal percentage-only display.
    Minimal,
}

/// Display settings for CLI output formatting.
#[derive(Clone, Copy, Debug)]
pub struct DisplaySettings {
    /// Progress bar style (default: modern).
    pub progress_style: Option<ProgressStyle>,
    /// Show unicode icons in output (default: yes).
    pub icons: Option<bool>,
    /// Show spinners for operations in progress (default: yes).
    pub spinners: Option<bool>,
}

/// The application's configuration.
#[derive(Debug)]
pub struct Config {
    /// The name of the default profile.
    pub default_profile: String,
    /// The profiles, by name; no two share a name (see `profiles_distinct`).
    pub profile: Vec<(String, Profile)>,
    /// The configured repositories.
    pub repositories: Vec<Repository>,
    /// Path to the local cache directory.
    pub cache_path: Option<String>,
    /// Path where the package database is stored.
    pub db_path: Option<String>,
    /// Directory where binary symlinks are placed.
    pub bin_path: Option<String>,
    /// Directory where desktop files are stored.
    pub desktop_path: Option<String>,
    /// Path to the local clone of all repositories.
    pub repositories_path: Option<String>,
    /// Portable dirs path.
    pub portable_dirs: Option<String>,
    /// Whether packages download in parallel.
    pub parallel: Option<bool>,
    /// Maximum number of parallel downloads.
    pub parallel_limit: Option<u32>,
    /// Maximum number of concurrent requests to the container registry.
    pub ghcr_concurrency: Option<usize>,
    /// Limit on the results of a search.
    pub search_limit: Option<usize>,
    /// Whether packages may update across repositories.
    pub cross_repo_updates: Option<bool>,
    /// Shells to link package completions for.
    pub completions: Option<Vec<String>>,
    /// Glob patterns filtering which files an install keeps.
    pub install_patterns: Option<Vec<String>>,
    /// Global override for signature verification.
    pub signature_verification: Option<bool>,
    /// Global override for desktop integration.
    pub desktop_integration: Option<bool>,
    /// Global override for the sync interval.
    pub sync_interval: Option<String>,
    /// Display settings.
    pub display: Option<DisplaySettings>,
    /// Whether this configuration is for system mode.
    pub system_mode: bool,
}

/// The files an install keeps by default: all but logs, build scripts,
/// JSON and version files.
pub open spec fn spec_default_install_patterns() -> Seq<Seq<char>> {
    seq!["!*.log"@, "!SBUILD"@, "!*.json"@, "!*.version"@]
}

/// The glob patterns an install keeps files by, by default.
pub fn default_install_patterns() -> (r: Vec<String>)
    ensures
        texts(r@) == spec_default_install_patterns(),
{
    let mut r: Vec<String> = Vec::new();
    r.push(string_of(&chars_of("!*.log")));
    r.push(string_of(&chars_of("!SBUILD")));
    r.push(string_of(&chars_of("!*.json")));
    r.push(string_of(&chars_of("!*.version")));
    assert(texts(r@) =~= spec_default_install_patterns());
    r
}

impl DisplaySettings {
    /// Settings with every choice left to its default.
    pub fn new() -> (d: DisplaySettings)
        ensures
            d.progress_style is None && d.icons is None && d.spinners is None,
    {
        DisplaySettings { progress_style: None, icons: None, spinners: None }
    }

    /// The progress style, modern where unset.
    pub fn progress_style(&self) -> (s: ProgressStyle)
        ensures
            s == match self.progress_style {
                Some(p) => p,
                None => ProgressStyle::Modern,
            },
    {
        match self.progress_style {
            Some(p) => p,
            None => ProgressStyle::Modern,
        }
    }

    /// Whether icons are shown, yes where unset.
    pub fn icons(&self) -> (b: bool)
        ensures
            b == match self.icons {
                Some(i) => i,
                None => true,
            },
    {
        match self.icons {
            Some(i) => i,
            None => true,
        }
    }

    /// Whether spinners are shown, yes where unset.
    pub fn spinners(&self) -> (b: bool)
        ensures
            b == match self.spinners {
                Some(s) => s,
                None => true,
            },
    {
        match self.spinners {
            Some(s) => s,
            None => true,
        }
    }
}

impl Repository {
    /// Whether the repository is read, yes where unset.
    pub fn is_enabled(&self) -> (b: bool)
        ensures
            b == match self.enabled {
                Some(e) => e,
                None => true,
            },
    {
        match self.enabled {
            Some(e) => e,
            None => true,
        }
    }
}

/// Where a profile's data lives: `SOAR_ROOT` where it is set (`root_env`),
/// else the profile's root path.
pub open spec fn spec_root_path(p: Profile, root_env: Option<Seq<char>>) -> Seq<char> {
    match root_env {
        Some(r) => r,
        None => p.root_path@,
    }
}

impl Profile {
    /// The profile's root, `root_env` being the value of `SOAR_ROOT` where it
    /// is set.
    pub fn get_root_path(&self, root_env: Option<&str>) -> (r: String)
        ensures
            r@ == spec_root_path(
                *self,
                match root_env {
                    Some(e) => Some(e@),
                    None => None,
                },
            ),
    {
        match root_env {
            Some(e) => string_of(&chars_of(e)),
            None => self.root_path.clone(),
        }
    }

    /// The profile's cache directory: `cache` under its root.
    pub fn get_cache_path(&self, root_env: Option<&str>) -> (r: String)
        ensures
            r@ == path_join(
                spec_root_path(
                    *self,
                    match root_env {
                        Some(e) => Some(e@),
                        None => None,
                    },
                ),
                "cache"@,
            ),
    {
        join_path(self.get_root_path(root_env).as_str(), "cache")
    }

    /// Where the profile's packages are stored: its packages path where set,
    /// else `packages` under its root.
    pub fn get_packages_path(&self, root_env: Option<&str>) -> (r: String)
        ensures
            r@ == match self.packages_path {
                Some(p) => p@,
                None => path_join(
                    spec_root_path(
                        *self,
                        match root_env {
                            Some(e) => Some(e@),
                            None => None,
                        },
                    ),
                    "packages"@,
                ),
            },
    {
        match &self.packages_path {
            Some(p) => p.clone(),
            None => join_path(self.get_root_path(root_env).as_str(), "packages"),
        }
    }

    /// `leaf` under the profile's root.
    fn under_root(&self, root_env: Option<&str>, leaf: &str) -> (r: String)
        ensures
            r@ == path_join(spec_root_path(*self, opt_str(root_env)), leaf@),
    {
        proof {
            assert(opt_str(root_env) == match root_env {
                Some(e) => Some(e@),
                None => None::<Seq<char>>,
            });
        }
        join_path(self.get_root_path(root_env).as_str(), leaf)
    }

    /// Where the profile links binaries: `bin` under its root.
    pub fn get_bin_path(&self, root_env: Option<&str>) -> (r: String)
        ensures
            r@ == path_join(spec_root_path(*self, opt_str(root_env)), "bin"@),
    {
        self.under_root(root_env, "bin")
    }

    /// Where the profile keeps its database: `db` under its root.
    pub fn get_db_path(&self, root_env: Option<&str>) -> (r: String)
        ensures
            r@ == path_join(spec_root_path(*self, opt_str(root_env)), "db"@),
    {
        self.under_root(root_env, "db")
    }

    /// Where the profile keeps repository data: `repos` under its root.
    pub fn get_repositories_path(&self, root_env: Option<&str>) -> (r: String)
        ensures
            r@ == path_join(spec_root_path(*self, opt_str(root_env)), "repos"@),
    {
        self.under_root(root_env, "repos")
    }

    /// Where the profile keeps portable directories: `portable-dirs` under
    /// its root.
    pub fn get_portable_dirs(&self, root_env: Option<&str>) -> (r: String)
        ensures
            r@ == path_join(spec_root_path(*self, opt_str(root_env)), "portable-dirs"@),
    {
        self.under_root(root_env, "portable-dirs")
    }
}

/// The index of the first profile named `name`, at or after `i`.
pub open spec fn profile_index(ps: Seq<(String, Profile)>, name: Seq<char>, i: int) -> Option<int>
    decreases ps.len() - i,
{
    if i < 0 || i >= ps.len() {
        None
    } else if ps[i].0@ == name {
        Some(i)
    } else {
        profile_index(ps, name, i + 1)
    }
}

/// Whether no two profiles share a name, as no two keys of a map do.
pub open spec fn profiles_distinct(ps: Seq<(String, Profile)>) -> bool {
    forall|i: int, j: int| 0 <= i < j < ps.len() ==> #[trigger] ps[i].0@ != #[trigger] ps[j].0@
}

proof fn lemma_profile_index_from(ps: Seq<(String, Profile)>, k: int, i: int)
    requires
        profiles_distinct(ps),
        0 <= i <= k < ps.len(),
    ensures
        profile_index(ps, ps[k].0@, i) == Some(k),
    decreases k - i,
{
    if i < k {
        assert(ps[i].0@ != ps[k].0@);
        lemma_profile_index_from(ps, k, i + 1);
    }
}

/// Among profiles with distinct names, looking up the name of any profile
/// finds that very profile.
pub proof fn lemma_profile_lookup_finds_it(ps: Seq<(String, Profile)>, k: int)
    requires
        profiles_distinct(ps),
        0 <= k < ps.len(),
    ensures
        profile_index(ps, ps[k].0@, 0) == Some(k),
{
    lemma_profile_index_from(ps, k, 0);
}

/// The index of the first enabled repository named `name`, at or after `i`.
pub open spec fn repository_index(rs: Seq<Repository>, name: Seq<char>, i: int) -> Option<int>
    decreases rs.len() - i,
{
    if i < 0 || i >= rs.len() {
        None
    } else if rs[i].name@ == name && match rs[i].enabled {
        Some(e) => e,
        None => true,
    } {
        Some(i)
    } else {
        repository_index(rs, name, i + 1)
    }
}

fn str_eq(a: &str, b: &str) -> (r: bool)
    ensures
        r == (a@ == b@),
{
    seq_eq(&chars_of(a), &chars_of(b))
}

/// The index of the first profile named `name` in `ps`.
fn find_profile(ps: &Vec<(String, Profile)>, name: &str) -> (r: Option<usize>)
    ensures
        match r {
            Some(i) => profile_index(ps@, name@, 0) == Some(i as int) && i < ps@.len(),
            None => profile_index(ps@, name@, 0) is None,
        },
{
    let mut i: usize = 0;
    while i < ps.len()
        invariant
            i <= ps@.len(),
            profile_index(ps@, name@, i as int) == profile_index(ps@, name@, 0),
        decreases ps.len() - i,
    {
        if str_eq(ps[i].0.as_str(), name) {
            return Some(i);
        }
        i = i + 1;
    }
    None
}

/// A name usable as a single path component: not empty, no `/` (so not
/// absolute either), and neither `.` nor `..`.
pub open spec fn is_safe_component(s: Seq<char>) -> bool {
    s.len() > 0 && !s.contains('/') && s != "."@ && s != ".."@
}

/// Whether `s` is usable as a single path component.
pub fn safe_component(s: &str) -> (b: bool)
    ensures
        b == is_safe_component(s@),
{
    let v = chars_of(s);
    v.len() > 0 && !has_char(&v, '/') && !seq_eq(&v, &chars_of(".")) && !seq_eq(
        &v,
        &chars_of(".."),
    )
}

fn copy_opt(o: &Option<String>) -> (r: Option<String>)
    ensures
        r == *o,
{
    match o {
        Some(s) => Some(s.clone()),
        None => None,
    }
}

fn copy_opt_bool(o: &Option<bool>) -> (r: Option<bool>)
    ensures
        r == *o,
{
    match o {
        Some(b) => Some(*b),
        None => None,
    }
}

/// A repository as resolving leaves it: enabled unless it says otherwise,
/// and the `soarpkgs` repository given its key where it names none.
pub open spec fn resolved_repo(r: Repository, soarpkgs_pubkey: String) -> Repository {
    Repository {
        enabled: Some(
            match r.enabled {
                Some(e) => e,
                None => true,
            },
        ),
        pubkey: if r.pubkey is None && r.name@ == "soarpkgs"@ {
            Some(soarpkgs_pubkey)
        } else {
            r.pubkey
        },
        ..r
    }
}

/// Why the repository at `i` fails the checks, its predecessors having
/// passed them: a name that is not a single path component, the reserved
/// name `local`, a name taken by an earlier repository, or signature
/// verification asked for (globally or by the repository) without a key.
pub open spec fn repo_failure(
    rs: Seq<Repository>,
    i: int,
    global_sig: Option<bool>,
    soarpkgs_pubkey: String,
) -> Option<ConfigError> {
    let r = rs[i];
    if !is_safe_component(r.name@) {
        Some(ConfigError::InvalidRepositoryName(r.name))
    } else if r.name@ == "local"@ {
        Some(ConfigError::ReservedRepositoryName)
    } else if exists|j: int| 0 <= j < i && (#[trigger] rs[j]).name@ == r.name@ {
        Some(ConfigError::DuplicateRepositoryName(r.name))
    } else if (global_sig == Some(true) || r.signature_verification == Some(true)) && resolved_repo(
        r,
        soarpkgs_pubkey,
    ).pubkey is None {
        Some(ConfigError::MissingPubkey(r.name))
    } else {
        None
    }
}

/// The index of the first repository at or after `i` that fails the checks.
pub open spec fn first_failure(
    rs: Seq<Repository>,
    i: int,
    global_sig: Option<bool>,
    soarpkgs_pubkey: String,
) -> Option<int>
    decreases rs.len() - i,
{
    if i < 0 || i >= rs.len() {
        None
    } else if repo_failure(rs, i, global_sig, soarpkgs_pubkey) is Some {
        Some(i)
    } else {
        first_failure(rs, i + 1, global_sig, soarpkgs_pubkey)
    }
}

proof fn lemma_no_failure_from(rs: Seq<Repository>, i: int, global_sig: Option<bool>, key: String)
    requires
        0 <= i,
        first_failure(rs, i, global_sig, key) is None,
    ensures
        forall|j: int| i <= j < rs.len() ==> repo_failure(rs, j, global_sig, key) is None,
    decreases rs.len() - i,
{
    if i < rs.len() {
        lemma_no_failure_from(rs, i + 1, global_sig, key);
    }
}

/// A resolved configuration's repositories all passed the checks: each is
/// enabled or disabled explicitly, has a name that is a single path
/// component other than `local`, a name no other repository has, and a key
/// wherever its signatures are checked.
pub proof fn lemma_resolved_repositories(rs: Seq<Repository>, global_sig: Option<bool>, key: String)
    requires
        first_failure(rs, 0, global_sig, key) is None,
    ensures
        forall|i: int|
            #![trigger rs[i]]
            0 <= i < rs.len() ==> {
                let r = resolved_repo(rs[i], key);
                &&& r.enabled is Some
                &&& is_safe_component(r.name@)
                &&& r.name@ != "local"@
                &&& (global_sig == Some(true) || r.signature_verification == Some(true)) ==> r.pubkey is Some
            },
        forall|i: int, j: int| 0 <= i < j < rs.len() ==> (#[trigger] rs[i]).name@ != (#[trigger] rs[j]).name@,
{
    lemma_no_failure_from(rs, 0, global_sig, key);
    assert forall|i: int, j: int| 0 <= i < j < rs.len() implies (#[trigger] rs[i]).name@ != (
    #[trigger] rs[j]).name@ by {
        assert(repo_failure(rs, j, global_sig, key) is None);
    }
    assert forall|i: int| #![trigger rs[i]] 0 <= i < rs.len() implies {
        let r = resolved_repo(rs[i], key);
        &&& r.enabled is Some
        &&& is_safe_component(r.name@)
        &&& r.name@ != "local"@
        &&& (global_sig == Some(true) || r.signature_verification == Some(true)) ==> r.pubkey is Some
    } by {
        assert(repo_failure(rs, i, global_sig, key) is None);
    }
}

/// The repositories after resolving stopped at `k`: those before it
/// resolved, the one at `k` resolved where only its key was missing, the
/// rest as they were.
pub open spec fn repos_after(
    rs: Seq<Repository>,
    k: int,
    global_sig: Option<bool>,
    soarpkgs_pubkey: String,
) -> Seq<Repository> {
    Seq::new(
        rs.len(),
        |j: int|
            if j < k || (j == k && repo_failure(rs, k, global_sig, soarpkgs_pubkey) matches Some(
                ConfigError::MissingPubkey(_),
            )) {
                resolved_repo(rs[j], soarpkgs_pubkey)
            } else {
                rs[j]
            },
    )
}

/// The scalar settings as resolving fills them in.
pub open spec fn defaults_filled(old: Config, new: Config) -> bool {
    &&& new.parallel_limit == if match old.parallel {
        Some(p) => p,
        None => true,
    } && old.parallel_limit is None {
        Some(4u32)
    } else {
        old.parallel_limit
    }
    &&& new.ghcr_concurrency == Some(
        match old.ghcr_concurrency {
            Some(g) => g,
            None => 8usize,
        },
    )
    &&& new.search_limit == Some(
        match old.search_limit {
            Some(s) => s,
            None => 20usize,
        },
    )
    &&& new.cross_repo_updates == Some(
        match old.cross_repo_updates {
            Some(c) => c,
            None => false,
        },
    )
    &&& match old.install_patterns {
        Some(p) => new.install_patterns == Some(p),
        None => new.install_patterns matches Some(p) && texts(p@) == spec_default_install_patterns(),
    }
}

/// The fields resolving never touches are as they were.
pub open spec fn untouched(old: Config, new: Config) -> bool {
    &&& new.default_profile == old.default_profile
    &&& new.profile == old.profile
    &&& new.cache_path == old.cache_path
    &&& new.db_path == old.db_path
    &&& new.bin_path == old.bin_path
    &&& new.desktop_path == old.desktop_path
    &&& new.repositories_path == old.repositories_path
    &&& new.portable_dirs == old.portable_dirs
    &&& new.parallel == old.parallel
    &&& new.completions == old.completions
    &&& new.signature_verification == old.signature_verification
    &&& new.desktop_integration == old.desktop_integration
    &&& new.sync_interval == old.sync_interval
    &&& new.display == old.display
    &&& new.system_mode == old.system_mode
}

/// `leaf` under the root of the profile named `name`, where there is one.
pub open spec fn profile_dir(c: Config, name: Seq<char>, root_env: Option<Seq<char>>, leaf: Seq<char>) -> Option<Seq<char>> {
    match profile_index(c.profile@, name, 0) {
        Some(i) => Some(path_join(spec_root_path(c.profile@[i].1, root_env), leaf)),
        None => None,
    }
}

/// Whether `r` is the directory found in order of preference: the one an
/// environment variable names, the configured one, the one under a
/// profile; else the error that the profile `name` (the default one, where
/// `default` holds) is missing.
pub open spec fn located(
    r: Result<String, ConfigError>,
    env: Option<Seq<char>>,
    configured: Option<Seq<char>>,
    under_profile: Option<Seq<char>>,
    default: bool,
    name: Seq<char>,
) -> bool {
    match env {
        Some(e) => r matches Ok(p) && p@ == e,
        None => match configured {
            Some(c) => r matches Ok(p) && p@ == c,
            None => match under_profile {
                Some(d) => r matches Ok(p) && p@ == d,
                None => if default {
                    r matches Err(ConfigError::MissingDefaultProfile(n)) && n@ == name
                } else {
                    r matches Err(ConfigError::MissingProfile(n)) && n@ == name
                },
            },
        },
    }
}

/// The shells whose completions are linked where none are configured:
/// those of bash, zsh and fish whose completion directory exists.
pub open spec fn present_shells(bash_dir: bool, zsh_dir: bool, fish_dir: bool) -> Seq<Seq<char>> {
    (if bash_dir {
        seq!["bash"@]
    } else {
        seq![]
    }) + (if zsh_dir {
        seq!["zsh"@]
    } else {
        seq![]
    }) + (if fish_dir {
        seq!["fish"@]
    } else {
        seq![]
    })
}

impl Config {
    /// Whether this configuration is for system mode.
    pub fn is_system(&self) -> (b: bool)
        ensures
            b == self.system_mode,
    {
        self.system_mode
    }

    /// The default profile.
    pub fn default_profile(&self) -> (r: Result<&Profile, ConfigError>)
        ensures
            match profile_index(self.profile@, self.default_profile@, 0) {
                Some(i) => r matches Ok(p) && *p == self.profile@[i].1,
                None => r matches Err(ConfigError::MissingDefaultProfile(n)) && n@
                    == self.default_profile@,
            },
    {
        match find_profile(&self.profile, self.default_profile.as_str()) {
            Some(i) => Ok(&self.profile[i].1),
            None => Err(ConfigError::MissingDefaultProfile(self.default_profile.clone())),
        }
    }

    /// The profile named `name`.
    pub fn get_profile(&self, name: &str) -> (r: Result<&Profile, ConfigError>)
        ensures
            match profile_index(self.profile@, name@, 0) {
                Some(i) => r matches Ok(p) && *p == self.profile@[i].1,
                None => r matches Err(ConfigError::MissingProfile(n)) && n@ == name@,
            },
    {
        match find_profile(&self.profile, name) {
            Some(i) => Ok(&self.profile[i].1),
            None => Err(ConfigError::MissingProfile(string_of(&chars_of(name)))),
        }
    }

    /// Where binaries are linked: `SOAR_BIN` where set (`bin_env`), else the
    /// configured bin path, else `bin` under the default profile's root
    /// (`root_env` being `SOAR_ROOT` where set).
    pub fn get_bin_path(&self, bin_env: Option<&str>, root_env: Option<&str>) -> (r: Result<
        String,
        ConfigError,
    >)
        ensures
            match bin_env {
                Some(b) => r matches Ok(p) && p@ == b@,
                None => match self.bin_path {
                    Some(b) => r matches Ok(p) && p@ == b@,
                    None => match profile_index(self.profile@, self.default_profile@, 0) {
                        Some(i) => r matches Ok(p) && p@ == path_join(
                            spec_root_path(
                                self.profile@[i].1,
                                match root_env {
                                    Some(e) => Some(e@),
                                    None => None,
                                },
                            ),
                            "bin"@,
                        ),
                        None => r matches Err(ConfigError::MissingDefaultProfile(n)) && n@
                            == self.default_profile@,
                    },
                },
            },
    {
        if let Some(b) = bin_env {
            return Ok(string_of(&chars_of(b)));
        }
        if let Some(b) = &self.bin_path {
            return Ok(b.clone());
        }
        let p = self.default_profile()?;
        Ok(join_path(p.get_root_path(root_env).as_str(), "bin"))
    }

    /// Where desktop entries go: `SOAR_DESKTOP` where set (`desktop_env`),
    /// else the configured desktop path, else `default_dir` (the system's
    /// or the user's applications directory, by mode).
    pub fn get_desktop_path(&self, desktop_env: Option<&str>, default_dir: &str) -> (r: String)
        ensures
            r@ == match desktop_env {
                Some(d) => d@,
                None => match self.desktop_path {
                    Some(d) => d@,
                    None => default_dir@,
                },
            },
    {
        if let Some(d) = desktop_env {
            return string_of(&chars_of(d));
        }
        match &self.desktop_path {
            Some(d) => d.clone(),
            None => string_of(&chars_of(default_dir)),
        }
    }

    /// Where the package database lives: `SOAR_DB` where set (`db_env`),
    /// else the configured path, else `db` under the default profile's root.
    pub fn get_db_path(&self, db_env: Option<&str>, root_env: Option<&str>) -> (r: Result<
        String,
        ConfigError,
    >)
        ensures
            located(
                r,
                opt_str(db_env),
                opt_chars(self.db_path),
                profile_dir(*self, self.default_profile@, opt_str(root_env), "db"@),
                true,
                self.default_profile@,
            ),
    {
        if let Some(e) = db_env {
            return Ok(string_of(&chars_of(e)));
        }
        if let Some(d) = &self.db_path {
            return Ok(d.clone());
        }
        let p = self.default_profile()?;
        Ok(p.get_db_path(root_env))
    }

    /// Where repository data lives: `SOAR_REPOSITORIES` where set
    /// (`repos_env`), else the configured path, else `repos` under the
    /// default profile's root.
    pub fn get_repositories_path(&self, repos_env: Option<&str>, root_env: Option<&str>) -> (r:
        Result<String, ConfigError>)
        ensures
            located(
                r,
                opt_str(repos_env),
                opt_chars(self.repositories_path),
                profile_dir(*self, self.default_profile@, opt_str(root_env), "repos"@),
                true,
                self.default_profile@,
            ),
    {
        if let Some(e) = repos_env {
            return Ok(string_of(&chars_of(e)));
        }
        if let Some(d) = &self.repositories_path {
            return Ok(d.clone());
        }
        let p = self.default_profile()?;
        Ok(p.get_repositories_path(root_env))
    }

    /// Where portable directories live: `SOAR_PORTABLE_DIRS` where set
    /// (`portable_env`), else the configured path, else `portable-dirs`
    /// under the default profile's root.
    pub fn get_portable_dirs(&self, portable_env: Option<&str>, root_env: Option<&str>) -> (r:
        Result<String, ConfigError>)
        ensures
            located(
                r,
                opt_str(portable_env),
                opt_chars(self.portable_dirs),
                profile_dir(*self, self.default_profile@, opt_str(root_env), "portable-dirs"@),
                true,
                self.default_profile@,
            ),
    {
        if let Some(e) = portable_env {
            return Ok(string_of(&chars_of(e)));
        }
        if let Some(d) = &self.portable_dirs {
            return Ok(d.clone());
        }
        let p = self.default_profile()?;
        Ok(p.get_portable_dirs(root_env))
    }

    /// Where downloads are cached: `SOAR_CACHE` where set (`cache_env`),
    /// else the configured path, else `cache` under the root of the current
    /// profile.
    pub fn get_cache_path(
        &self,
        cache_env: Option<&str>,
        current_profile: &str,
        root_env: Option<&str>,
    ) -> (r: Result<String, ConfigError>)
        ensures
            located(
                r,
                opt_str(cache_env),
                opt_chars(self.cache_path),
                profile_dir(*self, current_profile@, opt_str(root_env), "cache"@),
                false,
                current_profile@,
            ),
    {
        if let Some(e) = cache_env {
            return Ok(string_of(&chars_of(e)));
        }
        if let Some(d) = &self.cache_path {
            return Ok(d.clone());
        }
        let p = self.get_profile(current_profile)?;
        Ok(p.get_cache_path(root_env))
    }

    /// Where the packages of a profile (the one named, else the current
    /// one) are stored: `SOAR_PACKAGES` where set (`packages_env`), else
    /// the profile's packages path, else `packages` under its root.
    pub fn get_packages_path(
        &self,
        packages_env: Option<&str>,
        profile_name: Option<String>,
        current_profile: &str,
        root_env: Option<&str>,
    ) -> (r: Result<String, ConfigError>)
        ensures
            ({
                let name = match profile_name {
                    Some(n) => n@,
                    None => current_profile@,
                };
                located(
                    r,
                    opt_str(packages_env),
                    None,
                    match profile_index(self.profile@, name, 0) {
                        Some(i) => Some(
                            match self.profile@[i].1.packages_path {
                                Some(p) => p@,
                                None => path_join(
                                    spec_root_path(self.profile@[i].1, opt_str(root_env)),
                                    "packages"@,
                                ),
                            },
                        ),
                        None => None,
                    },
                    false,
                    name,
                )
            }),
    {
        if let Some(e) = packages_env {
            return Ok(string_of(&chars_of(e)));
        }
        let name = match profile_name {
            Some(n) => n,
            None => string_of(&chars_of(current_profile)),
        };
        let p = self.get_profile(name.as_str())?;
        proof {
            assert(opt_str(root_env) == match root_env {
                Some(e) => Some(e@),
                None => None::<Seq<char>>,
            });
        }
        Ok(p.get_packages_path(root_env))
    }

    /// The shells whose package completions are linked: those configured,
    /// else those of bash, zsh and fish whose completion directory exists
    /// (`bash_dir`, `zsh_dir` and `fish_dir` saying whether it does).
    pub fn completion_shells(&self, bash_dir: bool, zsh_dir: bool, fish_dir: bool) -> (r: Vec<
        String,
    >)
        ensures
            texts(r@) == match self.completions {
                Some(v) => texts(v@),
                None => present_shells(bash_dir, zsh_dir, fish_dir),
            },
    {
        if let Some(shells) = &self.completions {
            let mut r: Vec<String> = Vec::new();
            let mut i: usize = 0;
            while i < shells.len()
                invariant
                    i <= shells@.len(),
                    texts(r@) == texts(shells@).subrange(0, i as int),
                decreases shells.len() - i,
            {
                let ghost before = r@;
                let x = shells[i].clone();
                assert(x@ == shells@[i as int]@);
                r.push(x);
                assert(r@ == before.push(x));
                assert(texts(r@) =~= texts(before).push(x@));
                i = i + 1;
                assert(texts(r@) =~= texts(shells@).subrange(0, i as int));
            }
            assert(texts(shells@).subrange(0, shells@.len() as int) =~= texts(shells@));
            return r;
        }
        let mut r: Vec<String> = Vec::new();
        if bash_dir {
            r.push(string_of(&chars_of("bash")));
        }
        if zsh_dir {
            r.push(string_of(&chars_of("zsh")));
        }
        if fish_dir {
            r.push(string_of(&chars_of("fish")));
        }
        assert(texts(r@) =~= present_shells(bash_dir, zsh_dir, fish_dir));
        r
    }

    /// The enabled repository named `repo_name`, if any.
    pub fn get_repository(&self, repo_name: &str) -> (r: Option<&Repository>)
        ensures
            match repository_index(self.repositories@, repo_name@, 0) {
                Some(i) => r == Some(&self.repositories@[i]),
                None => r is None,
            },
    {
        let mut i: usize = 0;
        while i < self.repositories.len()
            invariant
                i <= self.repositories@.len(),
                repository_index(self.repositories@, repo_name@, i as int) == repository_index(
                    self.repositories@,
                    repo_name@,
                    0,
                ),
            decreases self.repositories.len() - i,
        {
            let repo = &self.repositories[i];
            if str_eq(repo.name.as_str(), repo_name) && repo.is_enabled() {
                return Some(repo);
            }
            i = i + 1;
        }
        None
    }

    /// Whether packages of `repo_name` are integrated into the desktop: the
    /// global override where set, else the repository's own setting (yes
    /// where unset), and no for a repository that is not configured.
    pub fn has_desktop_integration(&self, repo_name: &str) -> (b: bool)
        ensures
            b == match self.desktop_integration {
                Some(g) => g,
                None => match repository_index(self.repositories@, repo_name@, 0) {
                    Some(i) => match self.repositories@[i].desktop_integration {
                        Some(d) => d,
                        None => true,
                    },
                    None => false,
                },
            },
    {
        if let Some(g) = self.desktop_integration {
            return g;
        }
        match self.get_repository(repo_name) {
            Some(repo) => match repo.desktop_integration {
                Some(d) => d,
                None => true,
            },
            None => false,
        }
    }

    /// The display settings, each left to its default where unset.
    pub fn display(&self) -> (d: DisplaySettings)
        ensures
            match self.display {
                Some(s) => d == s,
                None => d.progress_style is None && d.icons is None && d.spinners is None,
            },
    {
        match self.display {
            Some(s) => s,
            None => DisplaySettings::new(),
        }
    }

    /// Check the configuration and fill in its defaults: the default
    /// profile must exist; the parallel limit (where downloads are
    /// parallel), the install patterns, the registry concurrency, the
    /// search limit and cross-repository updates get their defaults; each
    /// repository, in order, must have a safe, unreserved, unique name and a
    /// key where its signatures are checked, and is enabled unless it says
    /// otherwise, the `soarpkgs` repository getting `soarpkgs_pubkey` where
    /// it names no key. On failure the repositories before the failing one
    /// are resolved already. The profiles, keyed by name, are distinct.
    pub fn resolve(&mut self, soarpkgs_pubkey: &String) -> (r: Result<(), ConfigError>)
        requires
            profiles_distinct(old(self).profile@),
        ensures
            profile_index(old(self).profile@, old(self).default_profile@, 0) is None ==> (
            r matches Err(ConfigError::MissingDefaultProfile(n)) && n@
                == old(self).default_profile@ && *final(self) == *old(self)),
            profile_index(old(self).profile@, old(self).default_profile@, 0) is Some ==> {
                &&& defaults_filled(*old(self), *final(self))
                &&& untouched(*old(self), *final(self))
                &&& match first_failure(
                    old(self).repositories@,
                    0,
                    old(self).signature_verification,
                    *soarpkgs_pubkey,
                ) {
                    None => r is Ok && final(self).repositories@ == old(
                        self,
                    ).repositories@.map_values(|x: Repository| resolved_repo(x, *soarpkgs_pubkey)),
                    Some(k) => repo_failure(
                        old(self).repositories@,
                        k,
                        old(self).signature_verification,
                        *soarpkgs_pubkey,
                    ) == Some(r->Err_0) && r is Err && final(self).repositories@ == repos_after(
                        old(self).repositories@,
                        k,
                        old(self).signature_verification,
                        *soarpkgs_pubkey,
                    ),
                }
            },
    {
        if find_profile(&self.profile, self.default_profile.as_str()).is_none() {
            return Err(ConfigError::MissingDefaultProfile(self.default_profile.clone()));
        }
        let parallel = match self.parallel {
            Some(p) => p,
            None => true,
        };
        if parallel && self.parallel_limit.is_none() {
            self.parallel_limit = Some(4);
        }
        if self.install_patterns.is_none() {
            self.install_patterns = Some(default_install_patterns());
        }
        if self.ghcr_concurrency.is_none() {
            self.ghcr_concurrency = Some(8);
        }
        if self.search_limit.is_none() {
            self.search_limit = Some(20);
        }
        if self.cross_repo_updates.is_none() {
            self.cross_repo_updates = Some(false);
        }
        let ghost rs = self.repositories@;
        let global_sig = copy_opt_bool(&self.signature_verification);
        let found = find_failure(&self.repositories, &global_sig, soarpkgs_pubkey);
        let (k, is_key) = match &found {
            Some((k, e)) => (
                *k,
                match e {
                    ConfigError::MissingPubkey(_) => true,
                    _ => false,
                },
            ),
            None => (self.repositories.len(), false),
        };
        let mut out: Vec<Repository> = Vec::new();
        let mut j: usize = 0;
        while j < self.repositories.len()
            invariant
                rs == self.repositories@,
                j <= rs.len(),
                k <= rs.len(),
                out@.len() == j,
                forall|m: int|
                    0 <= m < j ==> out@[m] == if m < k || (m == k && is_key) {
                        resolved_repo(rs[m], *soarpkgs_pubkey)
                    } else {
                        rs[m]
                    },
            decreases rs.len() - j,
        {
            if j < k || (j == k && is_key) {
                out.push(resolve_repo(&self.repositories[j], soarpkgs_pubkey));
            } else {
                out.push(copy_repo(&self.repositories[j]));
            }
            j = j + 1;
        }
        self.repositories = out;
        match found {
            Some((k, e)) => {
                assert(self.repositories@ =~= repos_after(rs, k as int, global_sig, *soarpkgs_pubkey));
                Err(e)
            },
            None => {
                assert(self.repositories@ =~= rs.map_values(
                    |x: Repository| resolved_repo(x, *soarpkgs_pubkey),
                ));
                Ok(())
            },
        }
    }
}

/// The first repository that fails the checks, with its failure.
fn find_failure(rs: &Vec<Repository>, global_sig: &Option<bool>, soarpkgs_pubkey: &String) -> (r:
    Option<(usize, ConfigError)>)
    ensures
        match r {
            Some((k, e)) => first_failure(rs@, 0, *global_sig, *soarpkgs_pubkey) == Some(k as int)
                && repo_failure(rs@, k as int, *global_sig, *soarpkgs_pubkey) == Some(e)
                && k < rs@.len(),
            None => first_failure(rs@, 0, *global_sig, *soarpkgs_pubkey) is None,
        },
{
    let mut i: usize = 0;
    while i < rs.len()
        invariant
            i <= rs@.len(),
            first_failure(rs@, 0, *global_sig, *soarpkgs_pubkey) == first_failure(
                rs@,
                i as int,
                *global_sig,
                *soarpkgs_pubkey,
            ),
        decreases rs.len() - i,
    {
        match check_repo(rs, i, global_sig, soarpkgs_pubkey) {
            Some(e) => {
                return Some((i, e));
            },
            None => {},
        }
        i = i + 1;
    }
    None
}

/// A copy of `r`.
fn copy_repo(r: &Repository) -> (c: Repository)
    ensures
        c == *r,
{
    Repository {
        name: r.name.clone(),
        url: r.url.clone(),
        pubkey: copy_opt(&r.pubkey),
        desktop_integration: copy_opt_bool(&r.desktop_integration),
        enabled: copy_opt_bool(&r.enabled),
        signature_verification: copy_opt_bool(&r.signature_verification),
        sync_interval: copy_opt(&r.sync_interval),
    }
}

/// `r` as resolving leaves it.
fn resolve_repo(r: &Repository, soarpkgs_pubkey: &String) -> (c: Repository)
    ensures
        c == resolved_repo(*r, *soarpkgs_pubkey),
{
    let pubkey = if r.pubkey.is_none() && str_eq(r.name.as_str(), "soarpkgs") {
        Some(soarpkgs_pubkey.clone())
    } else {
        copy_opt(&r.pubkey)
    };
    Repository {
        name: r.name.clone(),
        url: r.url.clone(),
        pubkey,
        desktop_integration: copy_opt_bool(&r.desktop_integration),
        enabled: Some(r.is_enabled()),
        signature_verification: copy_opt_bool(&r.signature_verification),
        sync_interval: copy_opt(&r.sync_interval),
    }
}

/// Why the repository at `i` fails the checks.
fn check_repo(rs: &Vec<Repository>, i: usize, global_sig: &Option<bool>, soarpkgs_pubkey: &String) -> (r:
    Option<ConfigError>)
    requires
        i < rs@.len(),
    ensures
        r == repo_failure(rs@, i as int, *global_sig, *soarpkgs_pubkey),
{
    let name = rs[i].name.as_str();
    if !safe_component(name) {
        return Some(ConfigError::InvalidRepositoryName(rs[i].name.clone()));
    }
    if str_eq(name, "local") {
        return Some(ConfigError::ReservedRepositoryName);
    }
    let mut j: usize = 0;
    while j < i
        invariant
            i < rs@.len(),
            j <= i,
            name@ == rs@[i as int].name@,
            is_safe_component(rs@[i as int].name@),
            rs@[i as int].name@ != "local"@,
            forall|m: int| 0 <= m < j ==> (#[trigger] rs@[m]).name@ != rs@[i as int].name@,
        decreases i - j,
    {
        if str_eq(rs[j].name.as_str(), name) {
            assert(rs@[j as int].name@ == rs@[i as int].name@);
            assert(exists|jj: int| 0 <= jj < i && (#[trigger] rs@[jj]).name@ == rs@[i as int].name@);
            let n = rs[i].name.clone();
            assert(n == rs@[i as int].name);
            return Some(ConfigError::DuplicateRepositoryName(n));
        }
        j = j + 1;
    }
    let explicitly = match global_sig {
        Some(true) => true,
        _ => match rs[i].signature_verification {
            Some(true) => true,
            _ => false,
        },
    };
    let keyless = rs[i].pubkey.is_none() && !str_eq(name, "soarpkgs");
    if explicitly && keyless {
        return Some(ConfigError::MissingPubkey(rs[i].name.clone()));
    }
    None
}

/// What the configuration falls back to depends on: whether soar runs
/// system-wide, `SOAR_ROOT` where it is set, the user's data directory, the
/// platform, and the repositories soar knows of.
#[derive(Debug)]
pub struct Environment {
    /// Whether soar runs in system mode.
    pub system_mode: bool,
    /// The value of `SOAR_ROOT`, where it is set.
    pub soar_root: Option<String>,
    /// The user's data directory (`XDG_DATA_HOME`).
    pub data_home: String,
    /// The platform, as repositories name it (`x86_64-Linux`).
    pub platform: String,
    /// The repositories soar knows of.
    pub repositories: Vec<RepoInfo>,
}

/// The root of a system-wide installation.
pub open spec fn spec_system_root() -> Seq<char> {
    "/opt/soar"@
}

/// The root of a system-wide installation.
pub fn system_root() -> (r: String)
    ensures
        r@ == spec_system_root(),
{
    string_of(&chars_of("/opt/soar"))
}

/// Where soar keeps its data by default: `SOAR_ROOT` where set, else the
/// system root in system mode, else `soar` in the user's data directory.
pub open spec fn spec_soar_root(env: Environment) -> Seq<char> {
    match env.soar_root {
        Some(r) => r@,
        None => if env.system_mode {
            spec_system_root()
        } else {
            env.data_home@ + "/soar"@
        },
    }
}

/// Whether a known repository is configured by default: it serves the
/// platform and, where repositories were selected, is among them.
pub open spec fn repo_selected(info: RepoInfo, platform: Seq<char>, selected: Seq<Seq<char>>) -> bool {
    texts(info.platforms@).contains(platform) && (selected.len() == 0 || selected.contains(
        info.name@,
    ))
}

/// `r` is the repository configured for the known repository `info` on
/// `platform`: its URL is the template with `{}` made the platform.
pub open spec fn configured_from(r: Repository, info: RepoInfo, platform: Seq<char>) -> bool {
    &&& r.name == info.name
    &&& r.url@ == replace_all(info.url_template@, "{}"@, platform)
    &&& r.pubkey == info.pubkey
    &&& r.desktop_integration == info.desktop_integration
    &&& r.enabled == info.enabled
    &&& r.signature_verification == info.signature_verification
    &&& r.sync_interval == info.sync_interval
}

fn contains_text(v: &[String], s: &str) -> (b: bool)
    ensures
        b == texts(v@).contains(s@),
{
    let mut i: usize = 0;
    while i < v.len()
        invariant
            i <= v@.len(),
            forall|k: int| 0 <= k < i ==> (#[trigger] v@[k])@ != s@,
        decreases v.len() - i,
    {
        if str_eq(v[i].as_str(), s) {
            assert(texts(v@)[i as int] == s@);
            return true;
        }
        i = i + 1;
    }
    assert forall|k: int| 0 <= k < texts(v@).len() implies texts(v@)[k] != s@ by {
        assert(texts(v@)[k] == v@[k]@);
    }
    false
}

fn suffixed(root: &Vec<char>, tail: &str) -> (r: Option<String>)
    ensures
        r matches Some(s) && s@ == root@ + tail@,
{
    Some(string_of(&concat(root, &chars_of(tail))))
}

impl Config {
    /// The configuration used where none was loaded: one `default` profile
    /// at the soar root, the standard directories under it, the known
    /// repositories that serve the platform (those among `selected_repos`
    /// where any are named), and the built-in limits.
    pub fn default_config(selected_repos: &[String], env: &Environment) -> (c: Config)
        ensures
            c.default_profile@ == "default"@,
            c.profile@.len() == 1,
            c.profile@[0].0@ == "default"@,
            profiles_distinct(c.profile@),
            c.profile@[0].1.root_path@ == spec_soar_root(*env),
            c.profile@[0].1.packages_path matches Some(p) && p@ == spec_soar_root(*env)
                + "/packages"@,
            c.bin_path matches Some(p) && p@ == spec_soar_root(*env) + "/bin"@,
            c.cache_path matches Some(p) && p@ == spec_soar_root(*env) + "/cache"@,
            c.db_path matches Some(p) && p@ == spec_soar_root(*env) + "/db"@,
            c.repositories_path matches Some(p) && p@ == spec_soar_root(*env) + "/repos"@,
            c.portable_dirs matches Some(p) && p@ == spec_soar_root(*env) + "/portable-dirs"@,
            c.desktop_path is None,
            c.repositories@.len() == env.repositories@.filter(
                |i: RepoInfo| repo_selected(i, env.platform@, texts(selected_repos@)),
            ).len(),
            forall|k: int|
                0 <= k < c.repositories@.len() ==> configured_from(
                    #[trigger] c.repositories@[k],
                    env.repositories@.filter(
                        |i: RepoInfo| repo_selected(i, env.platform@, texts(selected_repos@)),
                    )[k],
                    env.platform@,
                ),
            c.parallel == Some(true),
            c.parallel_limit == Some(4u32),
            c.search_limit == Some(20usize),
            c.ghcr_concurrency == Some(8usize),
            c.cross_repo_updates == Some(false),
            c.install_patterns matches Some(p) && texts(p@) == spec_default_install_patterns(),
            c.completions is None,
            c.signature_verification is None,
            c.desktop_integration is None,
            c.sync_interval is None,
            c.display is None,
            c.system_mode == env.system_mode,
    {
        let root = match &env.soar_root {
            Some(r) => chars_of(r.as_str()),
            None => if env.system_mode {
                chars_of(system_root().as_str())
            } else {
                concat(&chars_of(env.data_home.as_str()), &chars_of("/soar"))
            },
        };
        let ghost sel = texts(selected_repos@);
        let ghost pick = |i: RepoInfo| repo_selected(i, env.platform@, sel);
        let ghost known = env.repositories@;
        let mut repositories: Vec<Repository> = Vec::new();
        let mut i: usize = 0;
        let braces = chars_of("{}");
        proof {
            reveal_strlit("{}");
        }
        while i < env.repositories.len()
            invariant
                i <= known.len(),
                known == env.repositories@,
                braces@ == "{}"@,
                braces@.len() == 2,
                sel == texts(selected_repos@),
                pick == (|i: RepoInfo| repo_selected(i, env.platform@, sel)),
                repositories@.len() == known.subrange(0, i as int).filter(pick).len(),
                forall|k: int|
                    0 <= k < repositories@.len() ==> configured_from(
                        #[trigger] repositories@[k],
                        known.subrange(0, i as int).filter(pick)[k],
                        env.platform@,
                    ),
            decreases known.len() - i,
        {
            proof {
                lemma_filter_prefix(known, i as int, pick);
            }
            let info = &env.repositories[i];
            let serves = contains_text(info.platforms.as_slice(), env.platform.as_str());
            let chosen = selected_repos.len() == 0 || contains_text(
                selected_repos,
                info.name.as_str(),
            );
            if serves && chosen {
                let url = replace_chars(
                    &chars_of(info.url_template.as_str()),
                    &braces,
                    &chars_of(env.platform.as_str()),
                );
                let repo = Repository {
                    name: info.name.clone(),
                    url: string_of(&url),
                    pubkey: copy_opt(&info.pubkey),
                    desktop_integration: copy_opt_bool(&info.desktop_integration),
                    enabled: copy_opt_bool(&info.enabled),
                    signature_verification: copy_opt_bool(&info.signature_verification),
                    sync_interval: copy_opt(&info.sync_interval),
                };
                repositories.push(repo);
            }
            i = i + 1;
        }
        assert(known.subrange(0, known.len() as int) =~= known);
        let default_profile = Profile {
            root_path: string_of(&root),
            packages_path: suffixed(&root, "/packages"),
        };
        let mut profile: Vec<(String, Profile)> = Vec::new();
        profile.push((string_of(&chars_of("default")), default_profile));
        Config {
            default_profile: string_of(&chars_of("default")),
            profile,
            repositories,
            cache_path: suffixed(&root, "/cache"),
            db_path: suffixed(&root, "/db"),
            bin_path: suffixed(&root, "/bin"),
            desktop_path: None,
            repositories_path: suffixed(&root, "/repos"),
            portable_dirs: suffixed(&root, "/portable-dirs"),
            parallel: Some(true),
            parallel_limit: Some(4),
            ghcr_concurrency: Some(8),
            search_limit: Some(20),
            cross_repo_updates: Some(false),
            completions: None,
            install_patterns: Some(default_install_patterns()),
            signature_verification: None,
            desktop_integration: None,
            sync_interval: None,
            display: None,
            system_mode: env.system_mode,
        }
    }
}

/// The state the program keeps around its configuration.
#[derive(Debug)]
pub struct SoarState {
    /// The configuration loaded, once one is.
    pub config: Option<Config>,
    /// The configuration used until one is loaded.
    pub fallback: Config,
    /// The profile chosen for this run, if any.
    pub current_profile: Option<String>,
    /// Whether soar runs system-wide.
    pub system_mode: bool,
    /// Where the configuration file is.
    pub config_path: String,
}

/// Whether soar runs in system mode.
pub fn is_system_mode(state: &SoarState) -> (b: bool)
    ensures
        b == state.system_mode,
{
    state.system_mode
}

/// Switch to system mode, which reads the system-wide configuration file.
pub fn enable_system_mode(state: &mut SoarState)
    ensures
        final(state).system_mode,
        final(state).config_path@ == "/etc/soar/config.toml"@,
        final(state).config == old(state).config,
        final(state).fallback == old(state).fallback,
        final(state).current_profile == old(state).current_profile,
{
    state.system_mode = true;
    state.config_path = string_of(&chars_of("/etc/soar/config.toml"));
}

/// Make `loaded`, read from the configuration file, the configuration in
/// use: it takes the current system mode and must resolve; where it does
/// not, nothing changes and the error is returned. Its profiles, keyed by
/// name, are distinct.
pub fn init(state: &mut SoarState, loaded: Config, soarpkgs_pubkey: &String) -> (r: Result<
    (),
    ConfigError,
>)
    requires
        profiles_distinct(loaded.profile@),
    ensures
        r is Ok <==> (profile_index(loaded.profile@, loaded.default_profile@, 0) is Some
            && first_failure(
            loaded.repositories@,
            0,
            loaded.signature_verification,
            *soarpkgs_pubkey,
        ) is None),
        r is Ok ==> (final(state).config matches Some(c) && c.system_mode == old(state).system_mode
            && defaults_filled(loaded, c) && c.default_profile == loaded.default_profile
            && c.profile == loaded.profile && c.repositories@ == loaded.repositories@.map_values(
            |x: Repository| resolved_repo(x, *soarpkgs_pubkey),
        )),
        r is Err ==> final(state).config == old(state).config,
        final(state).system_mode == old(state).system_mode,
        final(state).fallback == old(state).fallback,
        final(state).current_profile == old(state).current_profile,
        final(state).config_path == old(state).config_path,
{
    let mut config = loaded;
    config.system_mode = state.system_mode;
    let res = config.resolve(soarpkgs_pubkey);
    match res {
        Ok(()) => {
            state.config = Some(config);
            Ok(())
        },
        Err(e) => Err(e),
    }
}

/// The configuration in use in `state`: the loaded one, else the fallback.
pub open spec fn config_in_use(state: SoarState) -> Config {
    match state.config {
        Some(c) => c,
        None => state.fallback,
    }
}

/// Whether a configuration shows icons (yes where unset).
pub open spec fn shows_icons(c: Config) -> bool {
    match c.display {
        Some(d) => match d.icons {
            Some(i) => i,
            None => true,
        },
        None => true,
    }
}

/// The configuration in use: the loaded one, else the fallback.
pub fn get_config(state: &SoarState) -> (c: &Config)
    ensures
        *c == config_in_use(*state),
{
    match &state.config {
        Some(c) => c,
        None => &state.fallback,
    }
}

/// The profile this run uses: the one chosen, else the default one.
pub fn get_current_profile(state: &SoarState) -> (p: String)
    ensures
        p == match state.current_profile {
            Some(c) => c,
            None => match state.config {
                Some(l) => l.default_profile,
                None => state.fallback.default_profile,
            },
        },
{
    match &state.current_profile {
        Some(c) => c.clone(),
        None => get_config(state).default_profile.clone(),
    }
}

/// Choose the profile this run uses; it must be configured.
pub fn set_current_profile(state: &mut SoarState, name: &str) -> (r: Result<(), ConfigError>)
    ensures
        ({
            let c = match old(state).config {
                Some(l) => l,
                None => old(state).fallback,
            };
            &&& profile_index(c.profile@, name@, 0) is Some ==> (r is Ok
                && (final(state).current_profile matches Some(p) && p@ == name@))
            &&& profile_index(c.profile@, name@, 0) is None ==> ((r matches Err(
                ConfigError::InvalidProfile(n),
            ) && n@ == name@) && final(state).current_profile == old(state).current_profile)
        }),
        final(state).config == old(state).config,
        final(state).fallback == old(state).fallback,
        final(state).system_mode == old(state).system_mode,
        final(state).config_path == old(state).config_path,
{
    if find_profile(&get_config(state).profile, name).is_none() {
        return Err(ConfigError::InvalidProfile(string_of(&chars_of(name))));
    }
    state.current_profile = Some(string_of(&chars_of(name)));
    Ok(())
}

} // verus!
