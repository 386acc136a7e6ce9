//! What the package manager's command line shows and reads: its icons and
//! output switches, the shapes `--json` reports, and the repositories it
//! accepts as defaults.

use vstd::prelude::*;

use crate::soar_config::{
    config_in_use, get_config, shows_icons, DisplaySettings, Environment, RepoInfo, Repository,
    SoarState,
};
use crate::config::{parse_u64, spec_parse_u64};
use crate::models::{opt_maintainers, opt_texts, Package};
use crate::soar_error::SoarError;
use crate::text::{
    chars_of, concat, join, join_chars, lower_chars, lowercase, rows, seq_eq, string_of, texts,
    trim, trim_chars,
};

verus! {

/// The icons the command line prints.
#[derive(Debug)]
pub struct Icons;

impl Icons {
    /// An arrow.
    pub const ARROW: &'static str = "→";
    /// Something broken.
    pub const BROKEN: &'static str = "✗";
    /// A build.
    pub const BUILD: &'static str = "🔨";
    /// A date.
    pub const CALENDAR: &'static str = "📅";
    /// Success.
    pub const CHECK: &'static str = "✓";
    /// A checksum.
    pub const CHECKSUM: &'static str = "🔏";
    /// Failure.
    pub const CROSS: &'static str = "✗";
    /// A description.
    pub const DESCRIPTION: &'static str = "📝";
    /// A home page.
    pub const HOME: &'static str = "🏠";
    /// Installed.
    pub const INSTALLED: &'static str = "✓";
    /// A license.
    pub const LICENSE: &'static str = "📜";
    /// A link.
    pub const LINK: &'static str = "🔗";
    /// A log.
    pub const LOG: &'static str = "📄";
    /// A maintainer.
    pub const MAINTAINER: &'static str = "👤";
    /// A note.
    pub const NOTE: &'static str = "📌";
    /// Not installed.
    pub const NOT_INSTALLED: &'static str = "○";
    /// A package.
    pub const PACKAGE: &'static str = "📦";
    /// A script.
    pub const SCRIPT: &'static str = "📃";
    /// A size.
    pub const SIZE: &'static str = "💾";
    /// A type.
    pub const TYPE: &'static str = "📁";
    /// A version.
    pub const VERSION: &'static str = "🏁";
    /// A warning.
    pub const WARNING: &'static str = "⚠";
}

/// `icon` where the configuration in use shows icons, else `fallback`.
pub fn icon_or<'a>(state: &SoarState, icon: &'a str, fallback: &'a str) -> (r: &'a str)
    ensures
        r == if shows_icons(config_in_use(*state)) {
            icon
        } else {
            fallback
        },
{
    if get_config(state).display().icons() {
        icon
    } else {
        fallback
    }
}

/// The display settings of the configuration in use.
pub fn display_settings(state: &SoarState) -> (d: DisplaySettings)
    ensures
        match config_in_use(*state).display {
            Some(s) => d == s,
            None => d.progress_style is None && d.icons is None && d.spinners is None,
        },
{
    get_config(state).display()
}

/// The output switches of a run.
#[derive(Debug)]
pub struct OutputFlags {
    /// Whether output is coloured.
    pub color: bool,
    /// Whether progress is drawn.
    pub progress: bool,
    /// Whether `--json` was passed, so output is machine readable.
    pub json: bool,
}

/// Whether progress is drawn.
pub fn progress_enabled(flags: &OutputFlags) -> (b: bool)
    ensures
        b == flags.progress,
{
    flags.progress
}

/// Whether output is machine readable.
pub fn json_enabled(flags: &OutputFlags) -> (b: bool)
    ensures
        b == flags.json,
{
    flags.json
}

/// What `inspect` shows of a package's build.
#[derive(Debug)]
pub enum InspectType {
    /// Its build log.
    BuildLog,
    /// Its build script.
    BuildScript,
}

impl InspectType {
    /// The name of what is shown: `log` or `script`.
    pub fn name(&self) -> (s: &'static str)
        ensures
            s@ == match self {
                InspectType::BuildLog => "log"@,
                InspectType::BuildScript => "script"@,
            },
    {
        match self {
            InspectType::BuildLog => "log",
            InspectType::BuildScript => "script",
        }
    }
}

/// A package as published by a repository.
#[derive(Debug)]
pub struct PackageJson {
    /// Its name.
    pub name: String,
    /// Its family.
    pub family: Option<String>,
    /// The repository publishing it.
    pub repo: String,
    /// Its version.
    pub version: String,
    /// What it is.
    pub description: String,
    /// Its type.
    pub pkg_type: Option<String>,
    /// Its download size.
    pub size: Option<u64>,
    /// Whether it is installed.
    pub installed: bool,
    /// Other versions the repository publishes, newest first.
    pub other_versions: Vec<String>,
}

/// A package installed on this system.
#[derive(Debug)]
pub struct InstalledJson {
    /// Its name.
    pub name: String,
    /// Its family.
    pub family: Option<String>,
    /// The repository it came from.
    pub repo: String,
    /// Its version.
    pub version: String,
    /// Its type.
    pub pkg_type: Option<String>,
    /// Where it is installed.
    pub installed_path: String,
    /// When it was installed.
    pub installed_date: String,
    /// Size on disk, which is not the download size.
    pub disk_size: u64,
    /// Whether it is pinned.
    pub pinned: bool,
    /// False when the install did not finish.
    pub healthy: bool,
}

/// Everything known about one package, as `query` reports it.
#[derive(Debug)]
pub struct PackageDetailJson {
    /// Its name.
    pub name: String,
    /// Its family.
    pub family: Option<String>,
    /// The repository publishing it.
    pub repo: String,
    /// Its version.
    pub version: String,
    /// What it is.
    pub description: String,
    /// Its type.
    pub pkg_type: Option<String>,
    /// Its download size.
    pub size: Option<u64>,
    /// The checksum a download is verified against.
    pub checksum: Option<String>,
    /// Its home pages.
    pub homepages: Vec<String>,
    /// Where its sources are.
    pub source_urls: Vec<String>,
    /// Its licenses.
    pub licenses: Vec<String>,
    /// Its categories.
    pub categories: Vec<String>,
    /// Notes on it.
    pub notes: Vec<String>,
    /// Where it is downloaded from.
    pub download_url: String,
    /// When it was built.
    pub build_date: Option<String>,
    /// Its maintainers, formatted for display.
    pub maintainers: Vec<String>,
}

/// A package with a newer version waiting for it.
#[derive(Debug)]
pub struct UpdateJson {
    /// Its name.
    pub name: String,
    /// Its family.
    pub family: Option<String>,
    /// The repository publishing it.
    pub repo: String,
    /// The version installed.
    pub current_version: String,
    /// The version waiting.
    pub new_version: String,
    /// The download size.
    pub size: Option<u64>,
}

/// A repository soar is configured to read.
#[derive(Debug)]
pub struct RepositoryJson {
    /// Its name.
    pub name: String,
    /// Its URL.
    pub url: String,
    /// Whether it is read.
    pub enabled: bool,
    /// Whether its signatures are checked.
    pub signature_verification: bool,
    /// Whether its packages are integrated into the desktop.
    pub desktop_integration: bool,
}

impl RepositoryJson {
    /// How `--json` reports a repository: enabled unless it says otherwise,
    /// signature verification and desktop integration only where it asks
    /// for them.
    pub fn from_repository(repo: &Repository) -> (j: RepositoryJson)
        ensures
            j.name == repo.name,
            j.url == repo.url,
            j.enabled == match repo.enabled {
                Some(e) => e,
                None => true,
            },
            j.signature_verification == match repo.signature_verification {
                Some(s) => s,
                None => false,
            },
            j.desktop_integration == match repo.desktop_integration {
                Some(d) => d,
                None => false,
            },
    {
        RepositoryJson {
            name: repo.name.clone(),
            url: repo.url.clone(),
            enabled: repo.is_enabled(),
            signature_verification: match repo.signature_verification {
                Some(s) => s,
                None => false,
            },
            desktop_integration: match repo.desktop_integration {
                Some(d) => d,
                None => false,
            },
        }
    }
}

/// Where soar keeps its files, so a frontend can read and write the same
/// ones.
#[derive(Debug)]
pub struct EnvJson {
    /// The configuration file.
    pub config: String,
    /// The packages configuration file.
    pub packages_config: String,
    /// The binaries directory.
    pub bin: String,
    /// The database directory.
    pub db: String,
    /// The cache directory.
    pub cache: String,
    /// The packages directory.
    pub packages: String,
    /// The repositories directory.
    pub repositories: String,
}

/// One package the declarative configuration would change.
#[derive(Debug)]
pub struct ApplyChangeJson {
    /// Its name.
    pub name: String,
    /// Its family.
    pub family: Option<String>,
    /// The repository it comes from.
    pub repo: String,
    /// The version it would have.
    pub version: String,
    /// The version on disk now, for a package being replaced.
    pub current_version: Option<String>,
}

/// What applying the declarative configuration would do.
#[derive(Debug)]
pub struct ApplyDiffJson {
    /// Packages to install.
    pub to_install: Vec<ApplyChangeJson>,
    /// Packages to update.
    pub to_update: Vec<ApplyChangeJson>,
    /// Packages to remove.
    pub to_remove: Vec<ApplyChangeJson>,
    /// Packages already as configured.
    pub in_sync: Vec<String>,
    /// Packages the configuration names that were not found.
    pub not_found: Vec<String>,
}

/// The names of the known repositories that publish for `platform`, in
/// order, from the `i`-th on.
pub open spec fn supported_from(repos: Seq<RepoInfo>, platform: Seq<char>, i: int) -> Seq<Seq<char>>
    decreases repos.len() - i,
{
    if i < 0 || i >= repos.len() {
        seq![]
    } else if texts(repos[i].platforms@).contains(platform) {
        seq![repos[i].name@] + supported_from(repos, platform, i + 1)
    } else {
        supported_from(repos, platform, i + 1)
    }
}

/// The names of the known repositories that publish for the platform.
pub open spec fn supported_repos(env: Environment) -> Seq<Seq<char>> {
    supported_from(env.repositories@, env.platform@, 0)
}

/// What a default repository given on the command line comes to: its
/// name, trimmed and lowercased, where a repository known for the
/// platform has that name; else the message that lists those there are.
pub open spec fn spec_default_repo(arg: Seq<char>, env: Environment) -> Result<Seq<char>, Seq<char>> {
    let repo = lowercase(trim(arg));
    if supported_repos(env).contains(repo) {
        Ok(repo)
    } else {
        Err(
            "Invalid repository '"@ + repo + "'. Valid options for this platform ("@ + env.platform@
                + ") are: "@ + join(supported_repos(env), ", "@),
        )
    }
}

fn publishes_for(info: &RepoInfo, platform: &str) -> (b: bool)
    ensures
        b == texts(info.platforms@).contains(platform@),
{
    let p = chars_of(platform);
    let mut i: usize = 0;
    while i < info.platforms.len()
        invariant
            i <= info.platforms@.len(),
            p@ == platform@,
            forall|k: int| 0 <= k < i ==> texts(info.platforms@)[k] != platform@,
        decreases info.platforms.len() - i,
    {
        if seq_eq(&chars_of(info.platforms[i].as_str()), &p) {
            assert(texts(info.platforms@)[i as int] == platform@);
            return true;
        }
        i = i + 1;
    }
    assert(!texts(info.platforms@).contains(platform@));
    false
}

/// Check a repository named as a default on the command line against those
/// known for the platform.
pub fn parse_default_repos_arg(arg: &str, env: &Environment) -> (r: Result<String, SoarError>)
    ensures
        match spec_default_repo(arg@, *env) {
            Ok(name) => r matches Ok(n) && n@ == name,
            Err(m) => r matches Err(SoarError::Custom(e)) && e@ == m,
        },
{
    let repo = lower_chars(&trim_chars(&chars_of(arg)));
    let mut names: Vec<Vec<char>> = Vec::new();
    let mut found = false;
    let n = env.repositories.len();
    let mut i: usize = n;
    let ghost repos = env.repositories@;
    let ghost pf = env.platform@;
    while i > 0
        invariant
            i <= n == repos.len(),
            repos == env.repositories@,
            pf == env.platform@,
            rows(names@) == supported_from(repos, pf, i as int),
            found == supported_from(repos, pf, i as int).contains(repo@),
        decreases i,
    {
        i = i - 1;
        let info = &env.repositories[i];
        if publishes_for(info, env.platform.as_str()) {
            let name = chars_of(info.name.as_str());
            let ghost tail = rows(names@);
            if seq_eq(&name, &repo) {
                found = true;
            }
            names.insert(0, name);
            assert(rows(names@) =~= seq![info.name@] + tail);
            assert(supported_from(repos, pf, i as int) == seq![info.name@] + tail);
            assert((seq![info.name@] + tail).contains(repo@) == (info.name@ == repo@ || tail.contains(repo@))) by {
                assert((seq![info.name@] + tail)[0] == info.name@);
                if tail.contains(repo@) {
                    let k = choose|k: int| 0 <= k < tail.len() && tail[k] == repo@;
                    assert((seq![info.name@] + tail)[k + 1] == repo@);
                }
                if (seq![info.name@] + tail).contains(repo@) {
                    let k = choose|k: int| 0 <= k < tail.len() + 1 && (seq![info.name@] + tail)[k] == repo@;
                    if k > 0 {
                        assert(tail[k - 1] == repo@);
                    }
                }
            }
        }
    }
    if found {
        return Ok(string_of(&repo));
    }
    let list = join_chars(&names, &chars_of(", "));
    let m = concat(
        &concat(
            &concat(&concat(&chars_of("Invalid repository '"), &repo), &chars_of("'. Valid options for this platform (")),
            &chars_of(env.platform.as_str()),
        ),
        &concat(&chars_of(") are: "), &list),
    );
    Err(SoarError::Custom(string_of(&m)))
}

/// The index a typed selection picks among `max` listed packages: the
/// answer read as a number from 1 to `max`, less one; none where it is
/// anything else (and the question is asked again).
pub open spec fn spec_selection(response: Seq<char>, max: usize) -> Option<usize> {
    match spec_parse_u64(response) {
        Some(n) => if 1 <= n && n <= max {
            Some((n - 1) as usize)
        } else {
            None
        },
        None => None,
    }
}

/// Read a typed selection among `max` listed packages.
pub fn selection_index(response: &str, max: usize) -> (r: Option<usize>)
    ensures
        r == spec_selection(response@, max),
{
    match parse_u64(response) {
        Some(n) => {
            if 1 <= n && n <= max as u64 {
                Some((n - 1) as usize)
            } else {
                None
            }
        },
        None => None,
    }
}

/// Whether an answer to a yes/no question confirms: `y` or `yes`,
/// lowercased.
pub fn confirms(response: &str) -> (b: bool)
    ensures
        b == (lowercase(response@) == "y"@ || lowercase(response@) == "yes"@),
{
    let l = lower_chars(&chars_of(response));
    seq_eq(&l, &chars_of("y")) || seq_eq(&l, &chars_of("yes"))
}

/// How a package is listed for a choice: `family/name` where it has a
/// family other than its name, which is what tells two candidates of the
/// same name apart; its name otherwise.
pub open spec fn spec_listing_name(pkg_name: Seq<char>, pkg_family: Option<Seq<char>>) -> Seq<char> {
    match pkg_family {
        Some(f) => if f != pkg_name {
            f + "/"@ + pkg_name
        } else {
            pkg_name
        },
        None => pkg_name,
    }
}

/// The name a package is listed under for a choice.
pub fn listing_name(pkg_name: &str, pkg_family: Option<&str>) -> (r: String)
    ensures
        r@ == spec_listing_name(
            pkg_name@,
            match pkg_family {
                Some(f) => Some(f@),
                None => None,
            },
        ),
{
    let n = chars_of(pkg_name);
    match pkg_family {
        Some(f) => {
            let fc = chars_of(f);
            if !seq_eq(&fc, &n) {
                string_of(&concat(&concat(&fc, &chars_of("/")), &n))
            } else {
                string_of(&n)
            }
        },
        None => string_of(&n),
    }
}

/// The download size a package reports: that of its registry image where
/// it has one, else its own.
pub open spec fn reported_size(p: Package) -> Option<u64> {
    match p.ghcr_size {
        Some(s) => Some(s),
        None => p.size,
    }
}

/// The texts of an optional list, none being an empty list.
pub open spec fn texts_or_empty(o: Option<Vec<String>>) -> Seq<Seq<char>> {
    match opt_texts(o) {
        Some(t) => t,
        None => seq![],
    }
}

fn opt_copy(o: &Option<String>) -> (r: Option<String>)
    ensures
        crate::text::opt_chars(r) == crate::text::opt_chars(*o),
{
    match o {
        Some(s) => Some(s.clone()),
        None => None,
    }
}

fn list_or_empty(o: &Option<Vec<String>>) -> (r: Vec<String>)
    ensures
        texts(r@) == texts_or_empty(*o),
{
    let mut r: Vec<String> = Vec::new();
    if let Some(v) = o {
        let mut i: usize = 0;
        while i < v.len()
            invariant
                i <= v@.len(),
                texts(r@) == texts(v@).subrange(0, i as int),
            decreases v.len() - i,
        {
            let ghost before = texts(r@);
            r.push(v[i].clone());
            assert(texts(r@) =~= before.push(v@[i as int]@));
            i = i + 1;
            assert(texts(r@) =~= texts(v@).subrange(0, i as int));
        }
        assert(texts(v@).subrange(0, v@.len() as int) =~= texts(v@));
    } else {
        assert(texts(r@) =~= Seq::<Seq<char>>::empty());
    }
    r
}

impl PackageJson {
    /// The package as a listing or a search reports it.
    pub fn new(package: &Package, installed: bool, other_versions: Vec<String>) -> (j: PackageJson)
        ensures
            j.name@ == package.pkg_name@,
            crate::text::opt_chars(j.family) == crate::text::opt_chars(package.pkg_family),
            j.repo@ == package.repo_name@,
            j.version@ == package.version@,
            j.description@ == package.description@,
            crate::text::opt_chars(j.pkg_type) == crate::text::opt_chars(package.pkg_type),
            j.size == reported_size(*package),
            j.installed == installed,
            j.other_versions == other_versions,
    {
        PackageJson {
            name: package.pkg_name.clone(),
            family: opt_copy(&package.pkg_family),
            repo: package.repo_name.clone(),
            version: package.version.clone(),
            description: package.description.clone(),
            pkg_type: opt_copy(&package.pkg_type),
            size: match package.ghcr_size {
                Some(s) => Some(s),
                None => package.size,
            },
            installed,
            other_versions,
        }
    }
}

impl PackageDetailJson {
    /// Everything known about a package, as `query` reports it; absent
    /// lists are reported empty, maintainers as `name (contact)`.
    pub fn from_package(package: &Package) -> (j: PackageDetailJson)
        ensures
            j.name@ == package.pkg_name@,
            crate::text::opt_chars(j.family) == crate::text::opt_chars(package.pkg_family),
            j.repo@ == package.repo_name@,
            j.version@ == package.version@,
            j.description@ == package.description@,
            crate::text::opt_chars(j.pkg_type) == crate::text::opt_chars(package.pkg_type),
            j.size == reported_size(*package),
            crate::text::opt_chars(j.checksum) == crate::text::opt_chars(package.bsum),
            texts(j.homepages@) == texts_or_empty(package.homepages),
            texts(j.source_urls@) == texts_or_empty(package.source_urls),
            texts(j.licenses@) == texts_or_empty(package.licenses),
            texts(j.categories@) == texts_or_empty(package.categories),
            texts(j.notes@) == texts_or_empty(package.notes),
            j.download_url@ == package.download_url@,
            crate::text::opt_chars(j.build_date) == crate::text::opt_chars(package.build_date),
            texts(j.maintainers@) == match opt_maintainers(package.maintainers) {
                Some(ms) => ms.map_values(|m: (Seq<char>, Seq<char>)| m.0 + " ("@ + m.1 + ")"@),
                None => seq![],
            },
    {
        let mut maintainers: Vec<String> = Vec::new();
        let ghost shown = |m: (Seq<char>, Seq<char>)| m.0 + " ("@ + m.1 + ")"@;
        if let Some(ms) = &package.maintainers {
            let ghost mv = ms@.map_values(|m: crate::package::Maintainer| (m.name@, m.contact@));
            let mut i: usize = 0;
            while i < ms.len()
                invariant
                    i <= ms@.len(),
                    mv == ms@.map_values(|m: crate::package::Maintainer| (m.name@, m.contact@)),
                    shown == (|m: (Seq<char>, Seq<char>)| m.0 + " ("@ + m.1 + ")"@),
                    texts(maintainers@) == mv.map_values(shown).subrange(0, i as int),
                decreases ms.len() - i,
            {
                let ghost before = texts(maintainers@);
                let d = ms[i].display();
                maintainers.push(d);
                assert(texts(maintainers@) =~= before.push(d@));
                i = i + 1;
                assert(texts(maintainers@) =~= mv.map_values(shown).subrange(0, i as int));
            }
            assert(mv.map_values(shown).subrange(0, ms@.len() as int) =~= mv.map_values(shown));
        } else {
            assert(texts(maintainers@) =~= Seq::<Seq<char>>::empty());
        }
        PackageDetailJson {
            name: package.pkg_name.clone(),
            family: opt_copy(&package.pkg_family),
            repo: package.repo_name.clone(),
            version: package.version.clone(),
            description: package.description.clone(),
            pkg_type: opt_copy(&package.pkg_type),
            size: match package.ghcr_size {
                Some(s) => Some(s),
                None => package.size,
            },
            checksum: opt_copy(&package.bsum),
            homepages: list_or_empty(&package.homepages),
            source_urls: list_or_empty(&package.source_urls),
            licenses: list_or_empty(&package.licenses),
            categories: list_or_empty(&package.categories),
            notes: list_or_empty(&package.notes),
            download_url: package.download_url.clone(),
            build_date: opt_copy(&package.build_date),
            maintainers,
        }
    }
}

} // verus!
