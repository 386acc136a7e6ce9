//! Where a package's releases come from: a GitHub or GitLab project named by
//! its configuration or by the download URL it was installed from, and what
//! a version command reports.

use vstd::prelude::*;

use crate::config::{parse_u64, spec_parse_u64};
use crate::text::opt_chars;
use crate::remote::{
    decode_segments, is_valid_download_url, parse_url, percent_decoded, spec_valid_download_url,
    url_parts,
};
use crate::soar_error::SoarError;
use crate::text::{
    chars_of, concat, contains, contains_seq, find_any, first_of, is_digit, join, join_chars, lines,
    lines_of, replace_all, replace_chars, rows, slice_chars, string_of, texts, trim, trim_chars,
};

verus! {

/// A package as the declarative configuration resolves it, as far as its
/// release source goes.
#[derive(Debug)]
pub struct ResolvedPackage {
    /// The package's name.
    pub name: String,
    /// A fixed download URL.
    pub url: Option<String>,
    /// The GitHub project, as `owner/repo`.
    pub github: Option<String>,
    /// The GitLab project, as `owner/repo`.
    pub gitlab: Option<String>,
    /// Glob pattern matching the asset's filename.
    pub asset_pattern: Option<String>,
    /// Whether pre-releases count.
    pub include_prerelease: Option<bool>,
    /// Glob pattern matching the tags that count.
    pub tag_pattern: Option<String>,
    /// Architecture names the project uses, by the system's.
    pub arch_map: Option<Vec<(String, String)>>,
}

impl Default for ResolvedPackage {
    fn default() -> (r: ResolvedPackage)
        ensures
            r.name@ == Seq::<char>::empty(),
            r.url is None,
            r.github is None,
            r.gitlab is None,
            r.asset_pattern is None,
            r.include_prerelease is None,
            r.tag_pattern is None,
            r.arch_map is None,
    {
        ResolvedPackage {
            name: String::new(),
            url: None,
            github: None,
            gitlab: None,
            asset_pattern: None,
            include_prerelease: None,
            tag_pattern: None,
            arch_map: None,
        }
    }
}

/// Source for fetching package releases.
#[derive(Debug)]
pub enum ReleaseSource {
    /// GitHub releases.
    GitHub {
        /// Repository in `owner/repo` form.
        repo: String,
        /// Glob pattern matching the asset's filename.
        asset_pattern: String,
        /// Whether pre-releases count.
        include_prerelease: bool,
        /// Glob pattern matching the tags that count.
        tag_pattern: Option<String>,
        /// Architecture names the project uses, by the system's.
        arch_map: Option<Vec<(String, String)>>,
    },
    /// GitLab releases.
    GitLab {
        /// Repository in `owner/repo` form.
        repo: String,
        /// Glob pattern matching the asset's filename.
        asset_pattern: String,
        /// Whether pre-releases count.
        include_prerelease: bool,
        /// Glob pattern matching the tags that count.
        tag_pattern: Option<String>,
        /// Architecture names the project uses, by the system's.
        arch_map: Option<Vec<(String, String)>>,
    },
}

/// The result of resolving a release source.
#[derive(Debug)]
pub struct ResolvedRelease {
    /// The version tag of the release.
    pub version: String,
    /// Download URL of the matched asset.
    pub download_url: String,
    /// Size of the download in bytes, where known.
    pub size: Option<u64>,
}

/// The pairs of an architecture map, as plain values.
pub open spec fn map_view(m: Option<Vec<(String, String)>>) -> Option<Seq<(Seq<char>, Seq<char>)>> {
    match m {
        Some(v) => Some(v@.map_values(|p: (String, String)| (p.0@, p.1@))),
        None => None,
    }
}

fn copy_map(m: &Option<Vec<(String, String)>>) -> (r: Option<Vec<(String, String)>>)
    ensures
        map_view(r) == map_view(*m),
{
    match m {
        None => None,
        Some(v) => {
            let mut out: Vec<(String, String)> = Vec::new();
            let mut i: usize = 0;
            while i < v.len()
                invariant
                    i <= v@.len(),
                    out@.len() == i,
                    forall|k: int|
                        0 <= k < i ==> (#[trigger] out@[k]).0@ == v@[k].0@ && out@[k].1@
                            == v@[k].1@,
                decreases v.len() - i,
            {
                out.push((v[i].0.clone(), v[i].1.clone()));
                i = i + 1;
            }
            assert(out@.map_values(|p: (String, String)| (p.0@, p.1@)) =~= v@.map_values(
                |p: (String, String)| (p.0@, p.1@),
            ));
            Some(out)
        },
    }
}

fn copy_opt(o: &Option<String>) -> (r: Option<String>)
    ensures
        r == *o,
{
    match o {
        Some(s) => Some(s.clone()),
        None => None,
    }
}

/// `s` is the source `from_resolved` makes for `pkg` on the given forge.
pub open spec fn source_from(s: ReleaseSource, pkg: ResolvedPackage, github: bool) -> bool {
    let project = if github {
        pkg.github
    } else {
        pkg.gitlab
    };
    match s {
        ReleaseSource::GitHub { repo, asset_pattern, include_prerelease, tag_pattern, arch_map } =>
            github && Some(repo) == project && Some(asset_pattern) == pkg.asset_pattern
            && include_prerelease == match pkg.include_prerelease {
            Some(b) => b,
            None => false,
        } && tag_pattern == pkg.tag_pattern && map_view(arch_map) == map_view(pkg.arch_map),
        ReleaseSource::GitLab { repo, asset_pattern, include_prerelease, tag_pattern, arch_map } =>
            !github && Some(repo) == project && Some(asset_pattern) == pkg.asset_pattern
            && include_prerelease == match pkg.include_prerelease {
            Some(b) => b,
            None => false,
        } && tag_pattern == pkg.tag_pattern && map_view(arch_map) == map_view(pkg.arch_map),
    }
}

/// A download URL taken apart into the release it came from.
#[derive(Debug)]
pub struct ReleaseDownload {
    /// Whether it is a GitHub download (else GitLab).
    pub is_github: bool,
    /// The project's owner.
    pub owner: String,
    /// The project.
    pub repo: String,
    /// The release's tag.
    pub tag: String,
    /// The asset's filename.
    pub asset: String,
}

/// The release a download on `host` with the (decoded) path `segs` came
/// from: `github.com/{owner}/{repo}/releases/download/{tag}/{asset}` or
/// `gitlab.com/{owner}/{repo}/-/releases/{tag}/downloads/{asset}`, as
/// (is GitHub, owner, repo, tag, asset).
pub open spec fn spec_release_download(host: Seq<char>, segs: Seq<Seq<char>>) -> Option<
    (bool, Seq<char>, Seq<char>, Seq<char>, Seq<char>),
> {
    if host == "github.com"@ && segs.len() == 6 && segs[2] == "releases"@ && segs[3]
        == "download"@ {
        Some((true, segs[0], segs[1], segs[4], segs[5]))
    } else if host == "gitlab.com"@ && segs.len() == 7 && segs[2] == "-"@ && segs[3]
        == "releases"@ && segs[5] == "downloads"@ {
        Some((false, segs[0], segs[1], segs[4], segs[6]))
    } else {
        None
    }
}

/// The release a download URL came from: the URL parsed, with a host and a
/// path whose percent-decoded segments name a forge release.
pub open spec fn spec_parse_release(url: Seq<char>) -> Option<
    (bool, Seq<char>, Seq<char>, Seq<char>, Seq<char>),
> {
    match url_parts(url) {
        Some((Some(host), Some(segs))) => spec_release_download(
            host,
            segs.map_values(|s: Seq<char>| percent_decoded(s)),
        ),
        _ => None,
    }
}

/// The parts of a release download, as plain values.
pub open spec fn download_view(d: ReleaseDownload) -> (bool, Seq<char>, Seq<char>, Seq<char>, Seq<char>) {
    (d.is_github, d.owner@, d.repo@, d.tag@, d.asset@)
}

fn str_eq(a: &str, b: &str) -> (r: bool)
    ensures
        r == (a@ == b@),
{
    crate::text::seq_eq(&chars_of(a), &chars_of(b))
}

impl ReleaseDownload {
    /// The release a download on `host` with the decoded path `segments`
    /// came from, where it names one.
    pub fn from_parts(host: &str, segments: &Vec<String>) -> (r: Option<ReleaseDownload>)
        ensures
            match r {
                Some(d) => spec_release_download(host@, texts(segments@)) == Some(download_view(d)),
                None => spec_release_download(host@, texts(segments@)) is None,
            },
    {
        let n = segments.len();
        let ghost s = texts(segments@);
        if str_eq(host, "github.com") && n == 6 {
            assert(s[2] == segments@[2]@ && s[3] == segments@[3]@);
            if str_eq(segments[2].as_str(), "releases") && str_eq(segments[3].as_str(), "download") {
                assert(s[0] == segments@[0]@ && s[1] == segments@[1]@ && s[4] == segments@[4]@ && s[5]
                    == segments@[5]@);
                return Some(
                    ReleaseDownload {
                        is_github: true,
                        owner: segments[0].clone(),
                        repo: segments[1].clone(),
                        tag: segments[4].clone(),
                        asset: segments[5].clone(),
                    },
                );
            }
        }
        if str_eq(host, "gitlab.com") && n == 7 {
            assert(s[2] == segments@[2]@ && s[3] == segments@[3]@ && s[5] == segments@[5]@);
            if str_eq(segments[2].as_str(), "-") && str_eq(segments[3].as_str(), "releases")
                && str_eq(segments[5].as_str(), "downloads") {
                assert(s[0] == segments@[0]@ && s[1] == segments@[1]@ && s[4] == segments@[4]@ && s[6]
                    == segments@[6]@);
                return Some(
                    ReleaseDownload {
                        is_github: false,
                        owner: segments[0].clone(),
                        repo: segments[1].clone(),
                        tag: segments[4].clone(),
                        asset: segments[6].clone(),
                    },
                );
            }
        }
        None
    }

    /// Take a download URL apart into the release it came from.
    pub fn parse(url: &str) -> (r: Option<ReleaseDownload>)
        ensures
            match r {
                Some(d) => spec_parse_release(url@) == Some(download_view(d)),
                None => spec_parse_release(url@) is None,
            },
    {
        let parts = match parse_url(url) {
            Some(p) => p,
            None => {
                return None;
            },
        };
        let host = match &parts.host {
            Some(h) => h,
            None => {
                return None;
            },
        };
        let segments = match &parts.path_segments {
            Some(s) => s,
            None => {
                return None;
            },
        };
        let decoded = decode_segments(segments);
        Self::from_parts(host.as_str(), &decoded)
    }
}

/// The leading part of `s` before the first of `cs`.
pub open spec fn before_any(s: Seq<char>, cs: Seq<char>) -> Seq<char> {
    s.subrange(0, first_of(s, cs, 0))
}

/// `s` without one leading `v`.
pub open spec fn strip_v(s: Seq<char>) -> Seq<char> {
    if s.len() > 0 && s[0] == 'v' {
        s.subrange(1, s.len() as int)
    } else {
        s
    }
}

/// The version a release tag states: the tag before any `@` (build
/// metadata), without a leading `v`, where that starts with an ASCII digit.
pub open spec fn version_of_tag(tag: Seq<char>) -> Option<Seq<char>> {
    let v = strip_v(before_any(tag, seq!['@']));
    if v.len() > 0 && is_digit(v[0]) {
        Some(v)
    } else {
        None
    }
}

fn before(s: &Vec<char>, cs: &Vec<char>) -> (r: Vec<char>)
    ensures
        r@ == before_any(s@, cs@),
{
    let k = find_any(s, cs, 0);
    slice_chars(s, 0, k)
}

pub(crate) fn without_v(s: &Vec<char>) -> (r: Vec<char>)
    ensures
        r@ == strip_v(s@),
{
    if s.len() > 0 && s[0] == 'v' {
        slice_chars(s, 1, s.len())
    } else {
        s.clone()
    }
}

/// The version a forge release URL states outright: that of its tag.
pub open spec fn spec_release_version(url: Seq<char>) -> Option<Seq<char>> {
    match spec_parse_release(url) {
        Some(d) => version_of_tag(d.3),
        None => None,
    }
}

/// The version a forge release URL states outright: that of its tag.
pub fn version_from_release_url(url: &str) -> (r: Option<String>)
    ensures
        match spec_release_version(url@) {
            Some(v) => r matches Some(x) && x@ == v,
            None => r is None,
        },
{
    let d = ReleaseDownload::parse(url)?;
    let at = vec!['@'];
    assert(at@ =~= seq!['@']);
    let v = without_v(&before(&chars_of(d.tag.as_str()), &at));
    if v.len() > 0 && '0' <= v[0] && v[0] <= '9' {
        Some(string_of(&v))
    } else {
        None
    }
}

/// A glob matching the asset across releases: the version the tag names
/// (before any `@` or `+`), or that without its leading `v`, replaced by
/// `*` wherever it occurs in the asset's name; the name as it is where
/// neither occurs in it.
pub open spec fn spec_asset_glob(tag: Seq<char>, asset: Seq<char>) -> Seq<char> {
    let version = before_any(tag, seq!['@', '+']);
    let bare = strip_v(version);
    if version.len() > 0 && contains_seq(asset, version) {
        replace_all(asset, version, "*"@)
    } else if bare.len() > 0 && contains_seq(asset, bare) {
        replace_all(asset, bare, "*"@)
    } else {
        asset
    }
}

/// A glob matching this asset across releases: `tool-1.2.3-linux-x86_64.tar.gz`
/// from tag `v1.2.3` becomes `tool-*-linux-x86_64.tar.gz`.
pub fn asset_glob(tag: &str, asset: &str) -> (r: String)
    ensures
        r@ == spec_asset_glob(tag@, asset@),
{
    let seps = vec!['@', '+'];
    assert(seps@ =~= seq!['@', '+']);
    let version = before(&chars_of(tag), &seps);
    let a = chars_of(asset);
    let star = chars_of("*");
    if version.len() > 0 && contains(&a, &version) {
        return string_of(&replace_chars(&a, &version, &star));
    }
    let bare = without_v(&version);
    if bare.len() > 0 && contains(&a, &bare) {
        return string_of(&replace_chars(&a, &bare, &star));
    }
    string_of(&a)
}

/// `s` is the source a release download `d` names: its project, the glob
/// of its asset, no pre-releases, no tag pattern and no architecture map.
pub open spec fn source_of_download(
    s: ReleaseSource,
    d: (bool, Seq<char>, Seq<char>, Seq<char>, Seq<char>),
) -> bool {
    match s {
        ReleaseSource::GitHub { repo, asset_pattern, include_prerelease, tag_pattern, arch_map } =>
            d.0 && repo@ == d.1 + "/"@ + d.2 && asset_pattern@ == spec_asset_glob(d.3, d.4)
            && !include_prerelease && tag_pattern is None && arch_map is None,
        ReleaseSource::GitLab { repo, asset_pattern, include_prerelease, tag_pattern, arch_map } =>
            !d.0 && repo@ == d.1 + "/"@ + d.2 && asset_pattern@ == spec_asset_glob(d.3, d.4)
            && !include_prerelease && tag_pattern is None && arch_map is None,
    }
}

impl ReleaseSource {
    /// The releases a download URL came out of, where its host publishes
    /// any; a URL from anywhere else answers nothing.
    pub fn from_download_url(url: &str) -> (r: Option<ReleaseSource>)
        ensures
            match spec_parse_release(url@) {
                Some(d) => r matches Some(s) && source_of_download(s, d),
                None => r is None,
            },
    {
        let d = ReleaseDownload::parse(url)?;
        let repo = string_of(
            &concat(&concat(&chars_of(d.owner.as_str()), &chars_of("/")), &chars_of(d.repo.as_str())),
        );
        let asset_pattern = asset_glob(d.tag.as_str(), d.asset.as_str());
        if d.is_github {
            Some(
                ReleaseSource::GitHub {
                    repo,
                    asset_pattern,
                    include_prerelease: false,
                    tag_pattern: None,
                    arch_map: None,
                },
            )
        } else {
            Some(
                ReleaseSource::GitLab {
                    repo,
                    asset_pattern,
                    include_prerelease: false,
                    tag_pattern: None,
                    arch_map: None,
                },
            )
        }
    }

    /// The release source a resolved package configures: its GitHub
    /// project, else its GitLab one, each only with an asset pattern.
    pub fn from_resolved(pkg: &ResolvedPackage) -> (r: Option<ReleaseSource>)
        ensures
            match pkg.github {
                Some(_) => match pkg.asset_pattern {
                    Some(_) => r matches Some(s) && source_from(s, *pkg, true),
                    None => r is None,
                },
                None => match pkg.gitlab {
                    Some(_) => match pkg.asset_pattern {
                        Some(_) => r matches Some(s) && source_from(s, *pkg, false),
                        None => r is None,
                    },
                    None => r is None,
                },
            },
    {
        let include_prerelease = match pkg.include_prerelease {
            Some(b) => b,
            None => false,
        };
        if let Some(repo) = &pkg.github {
            let asset_pattern = match &pkg.asset_pattern {
                Some(a) => a.clone(),
                None => {
                    return None;
                },
            };
            return Some(
                ReleaseSource::GitHub {
                    repo: repo.clone(),
                    asset_pattern,
                    include_prerelease,
                    tag_pattern: copy_opt(&pkg.tag_pattern),
                    arch_map: copy_map(&pkg.arch_map),
                },
            );
        }
        if let Some(repo) = &pkg.gitlab {
            let asset_pattern = match &pkg.asset_pattern {
                Some(a) => a.clone(),
                None => {
                    return None;
                },
            };
            return Some(
                ReleaseSource::GitLab {
                    repo: repo.clone(),
                    asset_pattern,
                    include_prerelease,
                    tag_pattern: copy_opt(&pkg.tag_pattern),
                    arch_map: copy_map(&pkg.arch_map),
                },
            );
        }
        None
    }
}

/// What a version command reports.
#[derive(Debug)]
pub struct VersionCommandResult {
    /// The version (line 1).
    pub version: String,
    /// The download URL (line 2), where it gives a valid one; otherwise the
    /// configured URL is used with the version substituted.
    pub download_url: Option<String>,
    /// The size in bytes (line 3), where it gives a number.
    pub size: Option<u64>,
}

/// The message of a version command that printed no version.
pub open spec fn empty_output_message() -> Seq<char> {
    "Version command returned empty output"@
}

/// What the output `out` of a version command reports: its first line,
/// trimmed, is the version and must not be empty; its second, trimmed, the
/// download URL where it is one; its third, trimmed, the size where it is a
/// number.
pub open spec fn spec_version_output(out: Seq<char>) -> Option<
    (Seq<char>, Option<Seq<char>>, Option<u64>),
> {
    let ls = lines(out);
    if ls.len() == 0 || trim(ls[0]).len() == 0 {
        None
    } else {
        Some(
            (
                trim(ls[0]),
                if ls.len() >= 2 && trim(ls[1]).len() > 0 && spec_valid_download_url(trim(ls[1])) {
                    Some(trim(ls[1]))
                } else {
                    None
                },
                if ls.len() >= 3 {
                    spec_parse_u64(trim(ls[2]))
                } else {
                    None
                },
            ),
        )
    }
}

/// Read what a version command printed.
pub fn parse_version_output(stdout: &str) -> (r: Result<VersionCommandResult, SoarError>)
    ensures
        match spec_version_output(stdout@) {
            Some((v, u, s)) => r matches Ok(res) && res.version@ == v && opt_chars(res.download_url)
                == u && res.size == s,
            None => r matches Err(SoarError::Custom(m)) && m@ == empty_output_message(),
        },
{
    let ls = lines_of(&chars_of(stdout));
    if ls.len() == 0 {
        return Err(SoarError::Custom(string_of(&chars_of("Version command returned empty output"))));
    }
    assert(rows(ls@)[0] == ls@[0]@);
    let version = trim_chars(ls[0].as_slice());
    if version.len() == 0 {
        return Err(SoarError::Custom(string_of(&chars_of("Version command returned empty output"))));
    }
    let download_url = if ls.len() >= 2 {
        assert(rows(ls@)[1] == ls@[1]@);
        let u = string_of(&trim_chars(ls[1].as_slice()));
        if chars_of(u.as_str()).len() > 0 && is_valid_download_url(u.as_str()) {
            Some(u)
        } else {
            None
        }
    } else {
        None
    };
    let size = if ls.len() >= 3 {
        assert(rows(ls@)[2] == ls@[2]@);
        parse_u64(string_of(&trim_chars(ls[2].as_slice())).as_str())
    } else {
        None
    };
    Ok(VersionCommandResult { version: string_of(&version), download_url, size })
}

/// Whether `fast_glob::glob_match(glob, path)` accepts `path`.
pub uninterp spec fn glob_matches(glob: Seq<char>, path: Seq<char>) -> bool;

/// Match `path` against `glob` with `fast_glob::glob_match`. The contract
/// names the result: the glob syntax takes pages.
#[verifier::external_body]
fn glob_match(glob: &str, path: &str) -> (b: bool)
    ensures
        b == glob_matches(glob@, path@),
{
    fast_glob::glob_match(glob, path)
}

/// Whether a release tag counts under an optional tag pattern: every tag
/// counts where there is none.
pub fn matches_tag_pattern(tag: &str, pattern: Option<&str>) -> (b: bool)
    ensures
        b == match pattern {
            Some(p) => glob_matches(p@, tag@),
            None => true,
        },
{
    match pattern {
        Some(p) => glob_match(p, tag),
        None => true,
    }
}

/// The value an architecture map gives `key`: that of its first pair with
/// that key.
pub open spec fn map_lookup(m: Seq<(Seq<char>, Seq<char>)>, key: Seq<char>, i: int) -> Option<Seq<char>>
    decreases m.len() - i,
{
    if i < 0 || i >= m.len() {
        None
    } else if m[i].0 == key {
        Some(m[i].1)
    } else {
        map_lookup(m, key, i + 1)
    }
}

/// `template` with `{arch}` made the architecture (as `arch_map` names it,
/// else `arch`), `{os}` the operating system, and, where a version is
/// given, `{version}` that version without a leading `v`.
pub open spec fn spec_substitute(
    template: Seq<char>,
    version: Option<Seq<char>>,
    arch_map: Option<Seq<(Seq<char>, Seq<char>)>>,
    arch: Seq<char>,
    os: Seq<char>,
) -> Seq<char> {
    let a = match arch_map {
        Some(m) => match map_lookup(m, arch, 0) {
            Some(x) => x,
            None => arch,
        },
        None => arch,
    };
    let r = replace_all(replace_all(template, "{arch}"@, a), "{os}"@, os);
    match version {
        Some(v) => replace_all(r, "{version}"@, strip_v(v)),
        None => r,
    }
}

fn lookup(m: &Vec<(String, String)>, key: &str) -> (r: Option<String>)
    ensures
        match map_lookup(m@.map_values(|p: (String, String)| (p.0@, p.1@)), key@, 0) {
            Some(v) => r matches Some(x) && x@ == v,
            None => r is None,
        },
{
    let ghost mv = m@.map_values(|p: (String, String)| (p.0@, p.1@));
    let mut i: usize = 0;
    while i < m.len()
        invariant
            i <= m@.len(),
            mv == m@.map_values(|p: (String, String)| (p.0@, p.1@)),
            map_lookup(mv, key@, i as int) == map_lookup(mv, key@, 0),
        decreases m.len() - i,
    {
        assert(mv[i as int] == (m@[i as int].0@, m@[i as int].1@));
        if str_eq(m[i].0.as_str(), key) {
            return Some(m[i].1.clone());
        }
        i = i + 1;
    }
    None
}

/// Substitute the placeholders of an asset pattern: `{arch}` (through the
/// package's architecture map), `{os}` and `{version}`; `arch` and `os` are
/// those the program was built for.
pub fn substitute_placeholders(
    template: &str,
    version: Option<&str>,
    arch_map: Option<&Vec<(String, String)>>,
    arch: &str,
    os: &str,
) -> (r: String)
    ensures
        r@ == spec_substitute(
            template@,
            match version {
                Some(v) => Some(v@),
                None => None,
            },
            match arch_map {
                Some(m) => Some(m@.map_values(|p: (String, String)| (p.0@, p.1@))),
                None => None,
            },
            arch@,
            os@,
        ),
{
    let a = match arch_map {
        Some(m) => match lookup(m, arch) {
            Some(x) => x,
            None => string_of(&chars_of(arch)),
        },
        None => string_of(&chars_of(arch)),
    };
    proof {
        reveal_strlit("{arch}");
        reveal_strlit("{os}");
        reveal_strlit("{version}");
    }
    let r1 = replace_chars(&chars_of(template), &chars_of("{arch}"), &chars_of(a.as_str()));
    let r2 = replace_chars(&r1, &chars_of("{os}"), &chars_of(os));
    match version {
        Some(v) => string_of(&replace_chars(&r2, &chars_of("{version}"), &without_v(&chars_of(v)))),
        None => string_of(&r2),
    }
}

/// A release as a forge lists it.
#[derive(Debug)]
pub struct ReleaseInfo {
    /// Its tag.
    pub tag: String,
    /// Whether it is a pre-release.
    pub prerelease: bool,
    /// Its assets.
    pub assets: Vec<AssetInfo>,
}

/// An asset of a release.
#[derive(Debug)]
pub struct AssetInfo {
    /// Its filename.
    pub name: String,
    /// Where it is downloaded from.
    pub url: String,
    /// Its size in bytes, where known.
    pub size: Option<u64>,
}

/// Whether the release tagged `tag` is the one asked for: the version
/// asked for, where one is (with or without a leading `v` on either side),
/// else a release that counts (a pre-release only where they are included)
/// under the tag pattern.
pub open spec fn release_wanted(
    tag: Seq<char>,
    prerelease: bool,
    include_prerelease: bool,
    tag_pattern: Option<Seq<char>>,
    version: Option<Seq<char>>,
) -> bool {
    match version {
        Some(v) => strip_v(tag) == strip_v(v) || tag == v,
        None => (include_prerelease || !prerelease) && match tag_pattern {
            Some(p) => glob_matches(p, tag),
            None => true,
        },
    }
}

/// The index of the first release at or after `i` that is wanted.
pub open spec fn first_wanted(
    rs: Seq<ReleaseInfo>,
    include_prerelease: bool,
    tag_pattern: Option<Seq<char>>,
    version: Option<Seq<char>>,
    i: int,
) -> Option<int>
    decreases rs.len() - i,
{
    if i < 0 || i >= rs.len() {
        None
    } else if release_wanted(rs[i].tag@, rs[i].prerelease, include_prerelease, tag_pattern, version) {
        Some(i)
    } else {
        first_wanted(rs, include_prerelease, tag_pattern, version, i + 1)
    }
}

proof fn lemma_first_wanted_unversioned(
    rs: Seq<ReleaseInfo>,
    include_prerelease: bool,
    tag_pattern: Option<Seq<char>>,
    i: int,
)
    requires
        0 <= i,
    ensures
        match first_wanted(rs, include_prerelease, tag_pattern, None, i) {
            Some(k) => i <= k < rs.len() && (include_prerelease || !rs[k].prerelease) && (
            tag_pattern matches Some(p) ==> glob_matches(p, rs[k].tag@)) && forall|j: int|
                i <= j < k ==> (!include_prerelease && (#[trigger] rs[j]).prerelease) || (
                tag_pattern matches Some(p) && !glob_matches(p, rs[j].tag@)),
            None => forall|j: int|
                i <= j < rs.len() ==> (!include_prerelease && (#[trigger] rs[j]).prerelease) || (
                tag_pattern matches Some(p) && !glob_matches(p, rs[j].tag@)),
        },
    decreases rs.len() - i,
{
    if i < rs.len() {
        lemma_first_wanted_unversioned(rs, include_prerelease, tag_pattern, i + 1);
    }
}

/// With no version asked for, the release picked is the first, newest
/// first, that is not a pre-release (unless pre-releases are included) and
/// whose tag matches the tag pattern where one is given: every release
/// before it is a pre-release that is not included or fails the pattern.
/// A tag pattern never lets an excluded pre-release through. Where no
/// release qualifies, none is picked.
pub proof fn lemma_pick_release_unversioned(
    rs: Seq<ReleaseInfo>,
    include_prerelease: bool,
    tag_pattern: Option<Seq<char>>,
)
    ensures
        match first_wanted(rs, include_prerelease, tag_pattern, None, 0) {
            Some(k) => 0 <= k < rs.len() && (include_prerelease || !rs[k].prerelease) && (
            tag_pattern matches Some(p) ==> glob_matches(p, rs[k].tag@)) && forall|j: int|
                0 <= j < k ==> (!include_prerelease && (#[trigger] rs[j]).prerelease) || (
                tag_pattern matches Some(p) && !glob_matches(p, rs[j].tag@)),
            None => forall|j: int|
                0 <= j < rs.len() ==> (!include_prerelease && (#[trigger] rs[j]).prerelease) || (
                tag_pattern matches Some(p) && !glob_matches(p, rs[j].tag@)),
        },
{
    lemma_first_wanted_unversioned(rs, include_prerelease, tag_pattern, 0);
}

proof fn lemma_first_wanted_versioned(
    rs: Seq<ReleaseInfo>,
    include_prerelease: bool,
    tag_pattern: Option<Seq<char>>,
    v: Seq<char>,
    i: int,
)
    requires
        0 <= i,
    ensures
        match first_wanted(rs, include_prerelease, tag_pattern, Some(v), i) {
            Some(k) => i <= k < rs.len() && (strip_v(rs[k].tag@) == strip_v(v) || rs[k].tag@ == v)
                && forall|j: int|
                i <= j < k ==> strip_v((#[trigger] rs[j]).tag@) != strip_v(v) && rs[j].tag@ != v,
            None => forall|j: int|
                i <= j < rs.len() ==> strip_v((#[trigger] rs[j]).tag@) != strip_v(v) && rs[j].tag@
                    != v,
        },
    decreases rs.len() - i,
{
    if i < rs.len() {
        lemma_first_wanted_versioned(rs, include_prerelease, tag_pattern, v, i + 1);
    }
}

/// With a version asked for, the release picked is the first, newest
/// first, whose tag is that version (with or without a leading `v` on
/// either side), pre-release or not and whatever the tag pattern; where no
/// tag is, none is picked.
pub proof fn lemma_pick_release_versioned(
    rs: Seq<ReleaseInfo>,
    include_prerelease: bool,
    tag_pattern: Option<Seq<char>>,
    v: Seq<char>,
)
    ensures
        match first_wanted(rs, include_prerelease, tag_pattern, Some(v), 0) {
            Some(k) => 0 <= k < rs.len() && (strip_v(rs[k].tag@) == strip_v(v) || rs[k].tag@ == v)
                && forall|j: int|
                0 <= j < k ==> strip_v((#[trigger] rs[j]).tag@) != strip_v(v) && rs[j].tag@ != v,
            None => forall|j: int|
                0 <= j < rs.len() ==> strip_v((#[trigger] rs[j]).tag@) != strip_v(v) && rs[j].tag@
                    != v,
        },
{
    lemma_first_wanted_versioned(rs, include_prerelease, tag_pattern, v, 0);
}

/// The message when no release of `repo` is wanted.
pub open spec fn no_release_message(
    repo: Seq<char>,
    tag_pattern: Option<Seq<char>>,
    version: Option<Seq<char>>,
) -> Seq<char> {
    match version {
        Some(v) => "No release found for "@ + repo + " with version '"@ + v + "'"@,
        None => match tag_pattern {
            Some(p) => "No releases found for "@ + repo + " matching tag pattern '"@ + p + "'"@,
            None => "No releases found for "@ + repo,
        },
    }
}

/// Pick the release to install among those a forge listed, newest first:
/// the first that is wanted.
pub fn pick_release(
    repo: &str,
    releases: &Vec<ReleaseInfo>,
    include_prerelease: bool,
    tag_pattern: Option<&str>,
    version: Option<&str>,
) -> (r: Result<usize, SoarError>)
    ensures
        ({
            let tp = match tag_pattern {
                Some(p) => Some(p@),
                None => None,
            };
            let ver = match version {
                Some(v) => Some(v@),
                None => None,
            };
            match first_wanted(releases@, include_prerelease, tp, ver, 0) {
                Some(i) => r == Ok::<usize, SoarError>(i as usize) && 0 <= i < releases@.len(),
                None => r matches Err(SoarError::Custom(m)) && m@ == no_release_message(
                    repo@,
                    tp,
                    ver,
                ),
            }
        }),
{
    let ghost tp = match tag_pattern {
        Some(p) => Some(p@),
        None => None,
    };
    let ghost ver = match version {
        Some(v) => Some(v@),
        None => None,
    };
    let mut i: usize = 0;
    while i < releases.len()
        invariant
            i <= releases@.len(),
            tp == match tag_pattern {
                Some(p) => Some(p@),
                None => None,
            },
            ver == match version {
                Some(v) => Some(v@),
                None => None,
            },
            first_wanted(releases@, include_prerelease, tp, ver, i as int) == first_wanted(
                releases@,
                include_prerelease,
                tp,
                ver,
                0,
            ),
        decreases releases.len() - i,
    {
        let tag = releases[i].tag.as_str();
        let wanted = match version {
            Some(v) => {
                let t = chars_of(tag);
                let w = chars_of(v);
                crate::text::seq_eq(&without_v(&t), &without_v(&w)) || crate::text::seq_eq(&t, &w)
            },
            None => (include_prerelease || !releases[i].prerelease) && matches_tag_pattern(
                tag,
                tag_pattern,
            ),
        };
        if wanted {
            return Ok(i);
        }
        i = i + 1;
    }
    let m = match version {
        Some(v) => concat(
            &concat(
                &concat(&chars_of("No release found for "), &chars_of(repo)),
                &chars_of(" with version '"),
            ),
            &concat(&chars_of(v), &chars_of("'")),
        ),
        None => match tag_pattern {
            Some(p) => concat(
                &concat(
                    &concat(&chars_of("No releases found for "), &chars_of(repo)),
                    &chars_of(" matching tag pattern '"),
                ),
                &concat(&chars_of(p), &chars_of("'")),
            ),
            None => concat(&chars_of("No releases found for "), &chars_of(repo)),
        },
    };
    Err(SoarError::Custom(string_of(&m)))
}

/// The index of the first asset at or after `i` whose name `pattern`
/// matches.
pub open spec fn first_matching(assets: Seq<AssetInfo>, pattern: Seq<char>, i: int) -> Option<int>
    decreases assets.len() - i,
{
    if i < 0 || i >= assets.len() {
        None
    } else if glob_matches(pattern, assets[i].name@) {
        Some(i)
    } else {
        first_matching(assets, pattern, i + 1)
    }
}

proof fn lemma_first_matching_from(assets: Seq<AssetInfo>, pattern: Seq<char>, i: int)
    requires
        0 <= i,
    ensures
        match first_matching(assets, pattern, i) {
            Some(k) => i <= k < assets.len() && glob_matches(pattern, assets[k].name@) && forall|j: int|
                i <= j < k ==> !glob_matches(pattern, (#[trigger] assets[j]).name@),
            None => forall|j: int|
                i <= j < assets.len() ==> !glob_matches(pattern, (#[trigger] assets[j]).name@),
        },
    decreases assets.len() - i,
{
    if i < assets.len() {
        lemma_first_matching_from(assets, pattern, i + 1);
    }
}

/// The asset found for a pattern is the first whose name the pattern
/// matches: none before it matches; where no name matches, none is found.
pub proof fn lemma_find_matching_asset_first(assets: Seq<AssetInfo>, pattern: Seq<char>)
    ensures
        match first_matching(assets, pattern, 0) {
            Some(k) => 0 <= k < assets.len() && glob_matches(pattern, assets[k].name@) && forall|j: int|
                0 <= j < k ==> !glob_matches(pattern, (#[trigger] assets[j]).name@),
            None => forall|j: int|
                0 <= j < assets.len() ==> !glob_matches(pattern, (#[trigger] assets[j]).name@),
        },
{
    lemma_first_matching_from(assets, pattern, 0);
}

/// The names of `assets`, in order.
pub open spec fn asset_names(assets: Seq<AssetInfo>) -> Seq<Seq<char>> {
    assets.map_values(|a: AssetInfo| a.name@)
}

/// What is said when no asset of a release matches `pattern`.
pub open spec fn no_asset_message(assets: Seq<AssetInfo>, pattern: Seq<char>) -> Seq<char> {
    if assets.len() == 0 {
        "No assets found in release"@
    } else {
        "No asset matching pattern '"@ + pattern + "' found. Available: "@ + join(
            asset_names(assets),
            ", "@,
        )
    }
}

/// Find the asset a pattern matches: the first, or an error naming the
/// pattern and the assets there are.
pub fn find_matching_asset(assets: &Vec<AssetInfo>, pattern: &str) -> (r: Result<usize, SoarError>)
    ensures
        assets@.len() > 0 && first_matching(assets@, pattern@, 0) is Some ==> r == Ok::<
            usize,
            SoarError,
        >(first_matching(assets@, pattern@, 0)->0 as usize) && 0 <= first_matching(
            assets@,
            pattern@,
            0,
        )->0 < assets@.len(),
        !(assets@.len() > 0 && first_matching(assets@, pattern@, 0) is Some) ==> (r matches Err(
            SoarError::Custom(m),
        ) && m@ == no_asset_message(assets@, pattern@)),
{
    if assets.len() == 0 {
        return Err(SoarError::Custom(string_of(&chars_of("No assets found in release"))));
    }
    let mut i: usize = 0;
    while i < assets.len()
        invariant
            i <= assets@.len(),
            first_matching(assets@, pattern@, i as int) == first_matching(assets@, pattern@, 0),
        decreases assets.len() - i,
    {
        if glob_match(pattern, assets[i].name.as_str()) {
            return Ok(i);
        }
        i = i + 1;
    }
    let mut names: Vec<Vec<char>> = Vec::new();
    let mut k: usize = 0;
    while k < assets.len()
        invariant
            k <= assets@.len(),
            rows(names@) == asset_names(assets@).subrange(0, k as int),
        decreases assets.len() - k,
    {
        let ghost before = rows(names@);
        names.push(chars_of(assets[k].name.as_str()));
        assert(rows(names@) =~= before.push(assets@[k as int].name@));
        k = k + 1;
        assert(asset_names(assets@).subrange(0, k as int) =~= before.push(assets@[k - 1].name@));
    }
    assert(asset_names(assets@).subrange(0, assets@.len() as int) =~= asset_names(assets@));
    let list = join_chars(&names, &chars_of(", "));
    let m = concat(
        &concat(&concat(&chars_of("No asset matching pattern '"), &chars_of(pattern)), &chars_of(
            "' found. Available: ",
        )),
        &list,
    );
    Err(SoarError::Custom(string_of(&m)))
}

/// What resolving a release source gives, from the releases its forge
/// listed: the version is the picked release's tag, the download that of
/// the first asset its pattern matches once the placeholders are made the
/// tag, the architecture and the operating system.
pub fn resolve_from_releases(
    repo: &str,
    releases: &Vec<ReleaseInfo>,
    asset_pattern: &str,
    include_prerelease: bool,
    tag_pattern: Option<&str>,
    version: Option<&str>,
    arch_map: Option<&Vec<(String, String)>>,
    arch: &str,
    os: &str,
) -> (r: Result<ResolvedRelease, SoarError>)
    ensures
        ({
            let tp = match tag_pattern {
                Some(p) => Some(p@),
                None => None,
            };
            let ver = match version {
                Some(v) => Some(v@),
                None => None,
            };
            match first_wanted(releases@, include_prerelease, tp, ver, 0) {
                None => r matches Err(SoarError::Custom(m)) && m@ == no_release_message(
                    repo@,
                    tp,
                    ver,
                ),
                Some(i) => {
                    let rel = releases@[i];
                    let pat = spec_substitute(
                        asset_pattern@,
                        Some(rel.tag@),
                        match arch_map {
                            Some(m) => Some(m@.map_values(|p: (String, String)| (p.0@, p.1@))),
                            None => None,
                        },
                        arch@,
                        os@,
                    );
                    &&& rel.assets@.len() > 0 && first_matching(rel.assets@, pat, 0) is Some
                        ==> (r matches Ok(res) && res.version@ == rel.tag@ && res.download_url@
                        == rel.assets@[first_matching(rel.assets@, pat, 0)->0].url@ && res.size
                        == rel.assets@[first_matching(rel.assets@, pat, 0)->0].size)
                    &&& !(rel.assets@.len() > 0 && first_matching(rel.assets@, pat, 0) is Some)
                        ==> (r matches Err(SoarError::Custom(m)) && m@ == no_asset_message(
                        rel.assets@,
                        pat,
                    ))
                },
            }
        }),
{
    let ghost tp = match tag_pattern {
        Some(p) => Some(p@),
        None => None,
    };
    let ghost ver = match version {
        Some(v) => Some(v@),
        None => None,
    };
    let picked = pick_release(repo, releases, include_prerelease, tag_pattern, version);
    let ghost fw = first_wanted(releases@, include_prerelease, tp, ver, 0);
    assert(releases@.len() == releases.len());
    let i = match picked {
        Ok(i) => i,
        Err(e) => {
            return Err(e);
        },
    };
    assert(fw == Some(i as int));
    let rel = &releases[i];
    let pat = substitute_placeholders(asset_pattern, Some(rel.tag.as_str()), arch_map, arch, os);
    let ghost spat = spec_substitute(
        asset_pattern@,
        Some(releases@[i as int].tag@),
        match arch_map {
            Some(m) => Some(m@.map_values(|p: (String, String)| (p.0@, p.1@))),
            None => None,
        },
        arch@,
        os@,
    );
    assert(pat@ == spat);
    assert(rel.assets@.len() == rel.assets.len());
    let k = match find_matching_asset(&rel.assets, pat.as_str()) {
        Ok(k) => k,
        Err(e) => {
            return Err(e);
        },
    };
    let a = &rel.assets[k];
    Ok(ResolvedRelease { version: rel.tag.clone(), download_url: a.url.clone(), size: a.size })
}

} // verus!
