//! Packages installed from an arbitrary URL or a container registry
//! reference: recognising such references and reading a package's family,
//! type, name and version out of them.

use vstd::prelude::*;

use crate::asset_name::{parse_filename, spec_parse_filename};
use crate::models::{details, no_details, Package};
use crate::release_source::{spec_release_version, strip_v, version_from_release_url, without_v};
use crate::remote::{parse_url, url_parts};
use crate::soar_config::{is_safe_component, safe_component};
use crate::soar_error::SoarError;
use crate::text::{
    after_last, after_last_chars, ascii_lower, chars_of, concat, ends_with_ci, find_any, first_of, has_prefix,
    has_prefix_ci, has_suffix_ci, lower_chars, lowercase, nonempty_rows, opt_chars, opt_str,
    replace_all, replace_chars, rows, slice_chars, split, split_chars, starts_with, starts_with_ci,
    string_of, to_lowercase, trim, trim_chars,
};

verus! {

/// A package parsed from a URL or a registry reference.
#[derive(Debug)]
pub struct UrlPackage {
    /// The original URL or registry reference.
    pub url: String,
    /// Extracted or overridden package name.
    pub pkg_name: String,
    /// Package id, only where the caller supplied one.
    pub pkg_id: Option<String>,
    /// Where the package came from, telling apart two sources that produce
    /// the same name.
    pub pkg_family: Option<String>,
    /// Extracted or overridden version.
    pub version: String,
    /// Package type detected from the extension (e.g. `appimage`).
    pub pkg_type: Option<String>,
    /// Whether this is a registry reference.
    pub is_ghcr: bool,
    /// Size in bytes, where known.
    pub size: Option<u64>,
}

/// An HTTP(S) URL: trimmed, it starts with `http://` or `https://` in any
/// case and parses.
pub open spec fn spec_is_url(input: Seq<char>) -> bool {
    let t = trim(input);
    &&& (starts_with_ci(t, "http://"@) || starts_with_ci(t, "https://"@))
    &&& url_parts(t) is Some
}

/// A registry reference: trimmed, it starts with `ghcr.io/` in any case.
pub open spec fn spec_is_ghcr(input: Seq<char>) -> bool {
    starts_with_ci(trim(input), "ghcr.io/"@)
}

impl UrlPackage {
    /// Check if a string is a valid HTTP(S) URL. (The scheme is compared
    /// without regard to the case of ASCII letters, which is what comparing
    /// the lowercased string does for these ASCII prefixes.)
    pub fn is_url(input: &str) -> (b: bool)
        ensures
            b == spec_is_url(input@),
    {
        let t = trim_chars(&chars_of(input));
        if !has_prefix_ci(&t, &chars_of("http://")) && !has_prefix_ci(&t, &chars_of("https://")) {
            return false;
        }
        parse_url(string_of(&t).as_str()).is_some()
    }

    /// Check if a string is a registry package reference, such as
    /// `ghcr.io/org/repo:tag`, `ghcr.io/org/repo@sha256:digest` or
    /// `ghcr.io/org/repo`.
    pub fn is_ghcr(input: &str) -> (b: bool)
        ensures
            b == spec_is_ghcr(input@),
    {
        has_prefix_ci(&trim_chars(&chars_of(input)), &chars_of("ghcr.io/"))
    }

    /// Check if input is either a URL or a registry reference.
    pub fn is_remote(input: &str) -> (b: bool)
        ensures
            b == (spec_is_url(input@) || spec_is_ghcr(input@)),
    {
        Self::is_url(input) || Self::is_ghcr(input)
    }
}

/// The family of a lowercased URL: its host and its first two non-empty
/// path segments (or the one there is), joined by dots; none where the URL
/// is not HTTP(S) or has no path.
pub open spec fn spec_family(lower: Seq<char>) -> Option<Seq<char>> {
    let rest = if starts_with(lower, "https://"@) {
        Some(lower.subrange(8, lower.len() as int))
    } else if starts_with(lower, "http://"@) {
        Some(lower.subrange(7, lower.len() as int))
    } else {
        None
    };
    match rest {
        None => None,
        Some(w) => {
            let k = first_of(w, seq!['/'], 0);
            if k == w.len() {
                None
            } else {
                let host = w.subrange(0, k);
                let parts = split(w.subrange(k + 1, w.len() as int), '/').filter(
                    |p: Seq<char>| p.len() > 0,
                );
                if parts.len() >= 2 {
                    Some(host + "."@ + parts[0] + "."@ + parts[1])
                } else if parts.len() == 1 {
                    Some(host + "."@ + parts[0])
                } else {
                    None
                }
            }
        },
    }
}

/// The family of an already lowercased URL.
pub fn family_from_lowercase(lower: &str) -> (r: Option<String>)
    ensures
        match r {
            Some(f) => spec_family(lower@) == Some(f@),
            None => spec_family(lower@) is None,
        },
{
    let l = chars_of(lower);
    let https = chars_of("https://");
    let http = chars_of("http://");
    proof {
        reveal_strlit("https://");
        reveal_strlit("http://");
    }
    let w = if has_prefix(&l, &https) {
        slice_chars(&l, 8, l.len())
    } else if has_prefix(&l, &http) {
        slice_chars(&l, 7, l.len())
    } else {
        return None;
    };
    let slash = vec!['/'];
    assert(slash@ =~= seq!['/']);
    let k = find_any(&w, &slash, 0);
    if k == w.len() {
        return None;
    }
    let host = slice_chars(&w, 0, k);
    let parts = nonempty_rows(&split_chars(&slice_chars(&w, k + 1, w.len()), '/'));
    let dot = chars_of(".");
    if parts.len() >= 2 {
        assert(rows(parts@)[0] == parts@[0]@ && rows(parts@)[1] == parts@[1]@);
        let a = concat(&concat(&host, &dot), parts[0].as_slice());
        Some(string_of(&concat(&concat(&a, &dot), parts[1].as_slice())))
    } else if parts.len() == 1 {
        assert(rows(parts@)[0] == parts@[0]@);
        Some(string_of(&concat(&concat(&host, &dot), parts[0].as_slice())))
    } else {
        None
    }
}

/// Extract the family from a URL: its host plus its first two path
/// segments, lowercased, e.g. `github.com.user.repo`.
pub fn extract_family_from_url(url: &str) -> (r: Option<String>)
    ensures
        match r {
            Some(f) => spec_family(lowercase(trim(url@))) == Some(f@),
            None => spec_family(lowercase(trim(url@))) is None,
        },
{
    let t = string_of(&trim_chars(&chars_of(url)));
    family_from_lowercase(to_lowercase(t.as_str()).as_str())
}

/// The package type a filename's extension names: an AppImage, FlatImage,
/// RunImage or NixAppImage by its own extension, an archive by a tarball
/// or zip extension, none otherwise (a bare binary). Extensions are
/// compared without regard to the case of ASCII letters.
pub open spec fn spec_pkg_type(f: Seq<char>) -> Option<Seq<char>> {
    if ends_with_ci(f, ".appimage"@) {
        Some("appimage"@)
    } else if ends_with_ci(f, ".flatimage"@) {
        Some("flatimage"@)
    } else if ends_with_ci(f, ".runimage"@) {
        Some("runimage"@)
    } else if ends_with_ci(f, ".nixappimage"@) {
        Some("nixappimage"@)
    } else if ends_with_ci(f, ".tar.gz"@) || ends_with_ci(f, ".tgz"@) || ends_with_ci(
        f,
        ".tar.xz"@,
    ) || ends_with_ci(f, ".tar.bz2"@) || ends_with_ci(f, ".zip"@) {
        Some("archive"@)
    } else {
        None
    }
}

proof fn lemma_ends_ci_char(f: Seq<char>, p: Seq<char>, d: int)
    requires
        ends_with_ci(f, p),
        1 <= d <= p.len(),
    ensures
        ascii_lower(f[f.len() - d]) == ascii_lower(p[p.len() - d]),
{
    let sub = f.subrange(f.len() - p.len(), f.len() as int);
    assert(ascii_lower(sub[p.len() - d]) == ascii_lower(p[p.len() - d]));
    assert(sub[p.len() - d] == f[f.len() - d]);
}

/// Every filename that ends, ignoring ASCII case, in `.zip`, `.tar.gz`,
/// `.tgz`, `.tar.xz` or `.tar.bz2` is detected as an archive; one that ends
/// in `.appimage`, `.flatimage`, `.runimage` or `.nixappimage` is of that
/// type; any other has no type.
pub proof fn lemma_pkg_type_by_extension(f: Seq<char>)
    ensures
        (ends_with_ci(f, ".zip"@) || ends_with_ci(f, ".tar.gz"@) || ends_with_ci(f, ".tgz"@)
            || ends_with_ci(f, ".tar.xz"@) || ends_with_ci(f, ".tar.bz2"@)) ==> spec_pkg_type(f)
            == Some("archive"@),
        ends_with_ci(f, ".appimage"@) ==> spec_pkg_type(f) == Some("appimage"@),
        ends_with_ci(f, ".flatimage"@) ==> spec_pkg_type(f) == Some("flatimage"@),
        ends_with_ci(f, ".runimage"@) ==> spec_pkg_type(f) == Some("runimage"@),
        ends_with_ci(f, ".nixappimage"@) ==> spec_pkg_type(f) == Some("nixappimage"@),
        !(ends_with_ci(f, ".zip"@) || ends_with_ci(f, ".tar.gz"@) || ends_with_ci(f, ".tgz"@)
            || ends_with_ci(f, ".tar.xz"@) || ends_with_ci(f, ".tar.bz2"@) || ends_with_ci(
            f,
            ".appimage"@,
        ) || ends_with_ci(f, ".flatimage"@) || ends_with_ci(f, ".runimage"@) || ends_with_ci(
            f,
            ".nixappimage"@,
        )) ==> spec_pkg_type(f) is None,
{
    reveal_strlit(".zip");
    reveal_strlit(".tar.gz");
    reveal_strlit(".tgz");
    reveal_strlit(".tar.xz");
    reveal_strlit(".tar.bz2");
    reveal_strlit(".appimage");
    reveal_strlit(".flatimage");
    reveal_strlit(".runimage");
    reveal_strlit(".nixappimage");
    let archives = seq![".zip"@, ".tar.gz"@, ".tgz"@, ".tar.xz"@, ".tar.bz2"@];
    let images = seq![".appimage"@, ".flatimage"@, ".runimage"@, ".nixappimage"@];
    assert forall|i: int| 0 <= i < archives.len() && ends_with_ci(f, #[trigger] archives[i]) implies
        ascii_lower(f[f.len() - 1]) != 'e' by {
        lemma_ends_ci_char(f, archives[i], 1);
    }
    assert forall|i: int| 0 <= i < images.len() && ends_with_ci(f, #[trigger] images[i]) implies
        ascii_lower(f[f.len() - 1]) == 'e' && ascii_lower(f[f.len() - 9]) == ascii_lower(
            images[i][images[i].len() - 9],
        ) && ascii_lower(f[f.len() - 8]) == ascii_lower(images[i][images[i].len() - 8]) by {
        lemma_ends_ci_char(f, images[i], 1);
        lemma_ends_ci_char(f, images[i], 8);
        lemma_ends_ci_char(f, images[i], 9);
    }
    assert(archives[0] == ".zip"@);
    assert(archives[1] == ".tar.gz"@);
    assert(archives[2] == ".tgz"@);
    assert(archives[3] == ".tar.xz"@);
    assert(archives[4] == ".tar.bz2"@);
    assert(images[0] == ".appimage"@);
    assert(images[1] == ".flatimage"@);
    assert(images[2] == ".runimage"@);
    assert(images[3] == ".nixappimage"@);
}

fn ends_ci(f: &Vec<char>, ext: &str) -> (b: bool)
    ensures
        b == ends_with_ci(f@, ext@),
{
    has_suffix_ci(f, &chars_of(ext))
}

/// Detect the package type from a filename's extension.
pub fn detect_pkg_type(filename: &str) -> (r: Option<String>)
    ensures
        match r {
            Some(t) => spec_pkg_type(filename@) == Some(t@),
            None => spec_pkg_type(filename@) is None,
        },
{
    let f = chars_of(filename);
    let t = if ends_ci(&f, ".appimage") {
        "appimage"
    } else if ends_ci(&f, ".flatimage") {
        "flatimage"
    } else if ends_ci(&f, ".runimage") {
        "runimage"
    } else if ends_ci(&f, ".nixappimage") {
        "nixappimage"
    } else if ends_ci(&f, ".tar.gz") || ends_ci(&f, ".tgz") || ends_ci(&f, ".tar.xz") || ends_ci(
        &f,
        ".tar.bz2",
    ) || ends_ci(&f, ".zip") {
        "archive"
    } else {
        return None;
    };
    Some(string_of(&chars_of(t)))
}

/// The extensions `remove_extensions` takes off, in the order it tries
/// them.
pub open spec fn known_extensions() -> Seq<Seq<char>> {
    seq![
        ".tar.gz"@, ".tar.xz"@, ".tar.bz2"@, ".appimage"@, ".flatimage"@, ".runimage"@,
        ".nixappimage"@, ".tgz"@, ".zip"@, ".exe"@, ".bin"@,
    ]
}

/// The index of the first of `known_extensions()` at or after `i` that
/// `f` ends with, or their number.
pub open spec fn extension_index(f: Seq<char>, i: int) -> int
    decreases known_extensions().len() - i,
{
    if i < 0 || i >= known_extensions().len() {
        known_extensions().len() as int
    } else if ends_with_ci(f, known_extensions()[i]) {
        i
    } else {
        extension_index(f, i + 1)
    }
}

/// `f` without the first known extension it ends with.
pub open spec fn spec_remove_extensions(f: Seq<char>) -> Seq<char> {
    let i = extension_index(f, 0);
    if i < known_extensions().len() {
        f.subrange(0, f.len() - known_extensions()[i].len())
    } else {
        f
    }
}

fn extension(i: usize) -> (e: &'static str)
    requires
        i < 11,
    ensures
        e@ == known_extensions()[i as int],
{
    if i == 0 {
        ".tar.gz"
    } else if i == 1 {
        ".tar.xz"
    } else if i == 2 {
        ".tar.bz2"
    } else if i == 3 {
        ".appimage"
    } else if i == 4 {
        ".flatimage"
    } else if i == 5 {
        ".runimage"
    } else if i == 6 {
        ".nixappimage"
    } else if i == 7 {
        ".tgz"
    } else if i == 8 {
        ".zip"
    } else if i == 9 {
        ".exe"
    } else {
        ".bin"
    }
}

/// Remove a known extension from a filename (the first of them it ends
/// with, compared without regard to the case of ASCII letters).
pub fn remove_extensions(filename: &str) -> (r: String)
    ensures
        r@ == spec_remove_extensions(filename@),
{
    let f = chars_of(filename);
    let mut i: usize = 0;
    while i < 11
        invariant
            i <= 11,
            f@ == filename@,
            known_extensions().len() == 11,
            extension_index(f@, i as int) == extension_index(f@, 0),
        decreases 11 - i,
    {
        let e = chars_of(extension(i));
        if has_suffix_ci(&f, &e) {
            return string_of(&slice_chars(&f, 0, f.len() - e.len()));
        }
        i = i + 1;
    }
    string_of(&f)
}

/// Why a name, id or family cannot be used: each must be a single path
/// component, as it is joined into the install directory.
pub open spec fn names_failure(
    pkg_name: Seq<char>,
    pkg_id: Option<Seq<char>>,
    pkg_family: Option<Seq<char>>,
) -> Option<Seq<char>> {
    if !is_safe_component(pkg_name) {
        Some("Invalid package name '"@ + pkg_name + "': must be a single path component"@)
    } else if pkg_id matches Some(i) && !is_safe_component(i) {
        Some("Invalid package id '"@ + pkg_id->0 + "': must be a single path component"@)
    } else if pkg_family matches Some(f) && !is_safe_component(f) {
        Some("Invalid package family '"@ + pkg_family->0 + "': must be a single path component"@)
    } else {
        None
    }
}

fn framed(a: &str, s: &str, b: &str) -> (v: String)
    ensures
        v@ == a@ + s@ + b@,
{
    string_of(&concat(&concat(&chars_of(a), &chars_of(s)), &chars_of(b)))
}

/// Reject a name, id or family that is not usable as a single path
/// component: a caller-supplied override containing `/` or `..` would
/// escape the install directory.
pub fn validate_names(pkg_name: &str, pkg_id: Option<&str>, pkg_family: Option<&str>) -> (r: Result<
    (),
    SoarError,
>)
    ensures
        match names_failure(
            pkg_name@,
            match pkg_id {
                Some(i) => Some(i@),
                None => None,
            },
            match pkg_family {
                Some(f) => Some(f@),
                None => None,
            },
        ) {
            None => r is Ok,
            Some(m) => r matches Err(SoarError::Custom(e)) && e@ == m,
        },
{
    if !safe_component(pkg_name) {
        return Err(
            SoarError::Custom(
                framed("Invalid package name '", pkg_name, "': must be a single path component"),
            ),
        );
    }
    if let Some(i) = pkg_id {
        if !safe_component(i) {
            return Err(
                SoarError::Custom(
                    framed("Invalid package id '", i, "': must be a single path component"),
                ),
            );
        }
    }
    if let Some(f) = pkg_family {
        if !safe_component(f) {
            return Err(
                SoarError::Custom(
                    framed("Invalid package family '", f, "': must be a single path component"),
                ),
            );
        }
    }
    Ok(())
}

/// What a `UrlPackage` holds, as plain values.
pub struct UrlPackageView {
    pub url: Seq<char>,
    pub pkg_name: Seq<char>,
    pub pkg_id: Option<Seq<char>>,
    pub pkg_family: Option<Seq<char>>,
    pub version: Seq<char>,
    pub pkg_type: Option<Seq<char>>,
    pub is_ghcr: bool,
    pub size: Option<u64>,
}

impl View for UrlPackage {
    type V = UrlPackageView;

    open spec fn view(&self) -> UrlPackageView {
        UrlPackageView {
            url: self.url@,
            pkg_name: self.pkg_name@,
            pkg_id: opt_chars(self.pkg_id),
            pkg_family: opt_chars(self.pkg_family),
            version: self.version@,
            pkg_type: opt_chars(self.pkg_type),
            is_ghcr: self.is_ghcr,
            size: self.size,
        }
    }
}

/// A registry path split into the package and its tag: at the first `@`
/// (a digest), else at the first `:`, else the tag is `latest`.
pub open spec fn split_reference(path: Seq<char>) -> (Seq<char>, Seq<char>) {
    let a = first_of(path, seq!['@'], 0);
    let c = first_of(path, seq![':'], 0);
    if a < path.len() {
        (path.subrange(0, a), path.subrange(a + 1, path.len() as int))
    } else if c < path.len() {
        (path.subrange(0, c), path.subrange(c + 1, path.len() as int))
    } else {
        (path, "latest"@)
    }
}

/// What parsing a registry reference gives: the package, or the message of
/// the error.
pub open spec fn spec_from_ghcr(
    input: Seq<char>,
    name_override: Option<Seq<char>>,
    version_override: Option<Seq<char>>,
    pkg_type_override: Option<Seq<char>>,
    pkg_id_override: Option<Seq<char>>,
) -> Result<UrlPackageView, Seq<char>> {
    let reference = trim(input);
    if !spec_is_ghcr(reference) {
        Err("Invalid GHCR reference: "@ + reference)
    } else {
        let path = if starts_with(reference, "ghcr.io/"@) || starts_with(reference, "GHCR.IO/"@) {
            reference.subrange(8, reference.len() as int)
        } else {
            reference
        };
        let package = split_reference(path).0;
        let tag = split_reference(path).1;
        let pkg_name = match name_override {
            Some(n) => lowercase(n),
            None => lowercase(after_last(package, '/')),
        };
        let version = match version_override {
            Some(v) => strip_v(v),
            None => strip_v(tag),
        };
        let pkg_family = Some(replace_all(package, "/"@, "."@));
        let pkg_type = match pkg_type_override {
            Some(t) => Some(lowercase(t)),
            None => None,
        };
        match names_failure(pkg_name, pkg_id_override, pkg_family) {
            Some(m) => Err(m),
            None => Ok(
                UrlPackageView {
                    url: reference,
                    pkg_name,
                    pkg_id: pkg_id_override,
                    pkg_family,
                    version,
                    pkg_type,
                    is_ghcr: true,
                    size: None,
                },
            ),
        }
    }
}

/// The filename a URL names: its last path piece, without a query.
pub open spec fn url_filename(url: Seq<char>) -> Seq<char> {
    let last = after_last(url, '/');
    last.subrange(0, first_of(last, seq!['?'], 0))
}

/// What parsing a download URL gives: the package, or the message of the
/// error. The name and version come from the filename where no override
/// gives them (the version from the release tag in the URL, where there
/// is one); the family is the URL's host and project, else the name and
/// type.
pub open spec fn spec_from_url(
    input: Seq<char>,
    name_override: Option<Seq<char>>,
    version_override: Option<Seq<char>>,
    pkg_type_override: Option<Seq<char>>,
    pkg_id_override: Option<Seq<char>>,
) -> Result<UrlPackageView, Seq<char>> {
    let url = trim(input);
    let filename = url_filename(url);
    if !spec_is_url(url) {
        Err("Invalid URL: "@ + url)
    } else if filename.len() == 0 {
        Err("Could not extract filename from URL"@)
    } else {
        let pkg_type = match pkg_type_override {
            Some(t) => Some(lowercase(t)),
            None => spec_pkg_type(filename),
        };
        let parsed = spec_parse_filename(filename);
        let pkg_name = match name_override {
            Some(n) => lowercase(n),
            None => parsed.0,
        };
        let version = match version_override {
            Some(v) => strip_v(v),
            None => match spec_release_version(url) {
                Some(v) => v,
                None => parsed.1,
            },
        };
        let pkg_family = match spec_family(lowercase(trim(url))) {
            Some(f) => Some(f),
            None => Some(
                match pkg_type {
                    Some(t) => pkg_name + "-"@ + t,
                    None => pkg_name,
                },
            ),
        };
        match names_failure(pkg_name, pkg_id_override, pkg_family) {
            Some(m) => Err(m),
            None => Ok(
                UrlPackageView {
                    url,
                    pkg_name,
                    pkg_id: pkg_id_override,
                    pkg_family,
                    version,
                    pkg_type,
                    is_ghcr: false,
                    size: None,
                },
            ),
        }
    }
}

/// What parsing a remote reference gives: a registry reference or else a
/// URL, or the message of the error.
pub open spec fn spec_from_remote(
    input: Seq<char>,
    name_override: Option<Seq<char>>,
    version_override: Option<Seq<char>>,
    pkg_type_override: Option<Seq<char>>,
    pkg_id_override: Option<Seq<char>>,
) -> Result<UrlPackageView, Seq<char>> {
    if spec_is_ghcr(input) {
        spec_from_ghcr(input, name_override, version_override, pkg_type_override, pkg_id_override)
    } else if spec_is_url(input) {
        spec_from_url(input, name_override, version_override, pkg_type_override, pkg_id_override)
    } else {
        Err(
            "Invalid remote reference: "@ + input
                + ". Expected HTTP(S) URL or ghcr.io/... reference"@,
        )
    }
}

/// The result of a parse held to its model: the package, or a custom
/// error with the model's message.
pub open spec fn parsed_as(r: Result<UrlPackage, SoarError>, m: Result<UrlPackageView, Seq<char>>) -> bool {
    match m {
        Ok(v) => r matches Ok(p) && p@ == v,
        Err(msg) => r matches Err(SoarError::Custom(e)) && e@ == msg,
    }
}

fn lower_opt(o: Option<&str>) -> (r: Option<String>)
    ensures
        opt_chars(r) == match o {
            Some(s) => Some(lowercase(s@)),
            None => None,
        },
{
    match o {
        Some(s) => Some(to_lowercase(s)),
        None => None,
    }
}

fn owned_opt(o: Option<&str>) -> (r: Option<String>)
    ensures
        opt_chars(r) == opt_str(o),
{
    match o {
        Some(s) => Some(string_of(&chars_of(s))),
        None => None,
    }
}

fn split_path(path: &Vec<char>) -> (r: (Vec<char>, Vec<char>))
    ensures
        (r.0@, r.1@) == split_reference(path@),
{
    let at = vec!['@'];
    let colon = vec![':'];
    assert(at@ =~= seq!['@']);
    assert(colon@ =~= seq![':']);
    let a = find_any(path, &at, 0);
    if a < path.len() {
        return (slice_chars(path, 0, a), slice_chars(path, a + 1, path.len()));
    }
    let c = find_any(path, &colon, 0);
    if c < path.len() {
        return (slice_chars(path, 0, c), slice_chars(path, c + 1, path.len()));
    }
    proof {
        reveal_strlit("latest");
    }
    assert(path@.subrange(0, path@.len() as int) =~= path@);
    (slice_chars(path, 0, path.len()), chars_of("latest"))
}

impl UrlPackage {
    /// Parse a registry reference (`ghcr.io/org/repo:tag`,
    /// `ghcr.io/org/repo@sha256:digest`, `ghcr.io/org/repo`) into a
    /// package: the name is the last path piece, the version the tag
    /// without a leading `v` (`latest` where there is none), the family the
    /// path with dots for slashes; overrides win, and a name, id or family
    /// that is not a single path component is refused.
    pub fn from_ghcr(
        reference: &str,
        name_override: Option<&str>,
        version_override: Option<&str>,
        pkg_type_override: Option<&str>,
        pkg_id_override: Option<&str>,
    ) -> (r: Result<UrlPackage, SoarError>)
        ensures
            parsed_as(
                r,
                spec_from_ghcr(
                    reference@,
                    opt_str(name_override),
                    opt_str(version_override),
                    opt_str(pkg_type_override),
                    opt_str(pkg_id_override),
                ),
            ),
    {
        let t = trim_chars(&chars_of(reference));
        let refer = string_of(&t);
        if !Self::is_ghcr(refer.as_str()) {
            proof {
                reveal_strlit("");
                assert("Invalid GHCR reference: "@ + refer@ + ""@ =~= "Invalid GHCR reference: "@ + refer@);
            }
            return Err(SoarError::Custom(framed("Invalid GHCR reference: ", refer.as_str(), "")));
        }
        proof {
            reveal_strlit("ghcr.io/");
            reveal_strlit("GHCR.IO/");
            reveal_strlit("/");
            reveal_strlit(".");
        }
        let path = if has_prefix(&t, &chars_of("ghcr.io/")) || has_prefix(&t, &chars_of("GHCR.IO/")) {
            slice_chars(&t, 8, t.len())
        } else {
            slice_chars(&t, 0, t.len())
        };
        assert(t@.subrange(0, t@.len() as int) =~= t@);
        let (package, tag) = split_path(&path);
        let pkg_name = match name_override {
            Some(n) => to_lowercase(n),
            None => string_of(&lower_chars(&after_last_chars(&package, '/'))),
        };
        let version = match version_override {
            Some(v) => string_of(&without_v(&chars_of(v))),
            None => string_of(&without_v(&tag)),
        };
        let family = string_of(&replace_chars(&package, &chars_of("/"), &chars_of(".")));
        let pkg_type = lower_opt(pkg_type_override);
        match validate_names(pkg_name.as_str(), pkg_id_override, Some(family.as_str())) {
            Err(e) => {
                return Err(e);
            },
            Ok(()) => {},
        }
        Ok(
            UrlPackage {
                url: refer,
                pkg_id: owned_opt(pkg_id_override),
                pkg_family: Some(family),
                pkg_name,
                version,
                pkg_type,
                is_ghcr: true,
                size: None,
            },
        )
    }

    /// Parse a download URL into a package, reading the name and version
    /// from its filename (the version from the release tag in the URL,
    /// where there is one) and the type from its extension; overrides win,
    /// and a name, id or family that is not a single path component is
    /// refused.
    pub fn from_url(
        url: &str,
        name_override: Option<&str>,
        version_override: Option<&str>,
        pkg_type_override: Option<&str>,
        pkg_id_override: Option<&str>,
    ) -> (r: Result<UrlPackage, SoarError>)
        ensures
            parsed_as(
                r,
                spec_from_url(
                    url@,
                    opt_str(name_override),
                    opt_str(version_override),
                    opt_str(pkg_type_override),
                    opt_str(pkg_id_override),
                ),
            ),
    {
        let t = trim_chars(&chars_of(url));
        let u = string_of(&t);
        if !Self::is_url(u.as_str()) {
            proof {
                reveal_strlit("");
                assert("Invalid URL: "@ + u@ + ""@ =~= "Invalid URL: "@ + u@);
            }
            return Err(SoarError::Custom(framed("Invalid URL: ", u.as_str(), "")));
        }
        let last = after_last_chars(&t, '/');
        let q = vec!['?'];
        assert(q@ =~= seq!['?']);
        let k = find_any(&last, &q, 0);
        if k == 0 {
            return Err(
                SoarError::Custom(string_of(&chars_of("Could not extract filename from URL"))),
            );
        }
        let filename = string_of(&slice_chars(&last, 0, k));
        let pkg_type = match pkg_type_override {
            Some(ty) => Some(to_lowercase(ty)),
            None => detect_pkg_type(filename.as_str()),
        };
        let (ename, ever) = parse_filename(filename.as_str());
        let pkg_name = match name_override {
            Some(n) => to_lowercase(n),
            None => ename,
        };
        let version = match version_override {
            Some(v) => string_of(&without_v(&chars_of(v))),
            None => match version_from_release_url(u.as_str()) {
                Some(v) => v,
                None => ever,
            },
        };
        proof {
            reveal_strlit("-");
        }
        let family = match extract_family_from_url(u.as_str()) {
            Some(f) => f,
            None => match &pkg_type {
                Some(ty) => string_of(
                    &concat(&concat(&chars_of(pkg_name.as_str()), &chars_of("-")), &chars_of(ty.as_str())),
                ),
                None => string_of(&chars_of(pkg_name.as_str())),
            },
        };
        match validate_names(pkg_name.as_str(), pkg_id_override, Some(family.as_str())) {
            Err(e) => {
                return Err(e);
            },
            Ok(()) => {},
        }
        Ok(
            UrlPackage {
                url: u,
                pkg_id: owned_opt(pkg_id_override),
                pkg_family: Some(family),
                pkg_name,
                version,
                pkg_type,
                is_ghcr: false,
                size: None,
            },
        )
    }

    /// Parse a remote reference, a registry reference or a URL, into a
    /// package.
    pub fn from_remote(
        input: &str,
        name_override: Option<&str>,
        version_override: Option<&str>,
        pkg_type_override: Option<&str>,
        pkg_id_override: Option<&str>,
    ) -> (r: Result<UrlPackage, SoarError>)
        ensures
            parsed_as(
                r,
                spec_from_remote(
                    input@,
                    opt_str(name_override),
                    opt_str(version_override),
                    opt_str(pkg_type_override),
                    opt_str(pkg_id_override),
                ),
            ),
    {
        if Self::is_ghcr(input) {
            Self::from_ghcr(input, name_override, version_override, pkg_type_override, pkg_id_override)
        } else if Self::is_url(input) {
            Self::from_url(input, name_override, version_override, pkg_type_override, pkg_id_override)
        } else {
            Err(
                SoarError::Custom(
                    framed(
                        "Invalid remote reference: ",
                        input,
                        ". Expected HTTP(S) URL or ghcr.io/... reference",
                    ),
                ),
            )
        }
    }
}

/// Whether a parsed package's name, id and family are each a single path
/// component.
pub open spec fn names_safe(v: UrlPackageView) -> bool {
    &&& is_safe_component(v.pkg_name)
    &&& v.pkg_id matches Some(i) ==> is_safe_component(i)
    &&& v.pkg_family matches Some(f) ==> is_safe_component(f)
}

/// Whatever a remote reference and its overrides are, a package parsed
/// from them has a name, id and family that are each a single path
/// component, so none of them can lead out of the install directory.
pub proof fn lemma_parsed_names_are_safe(
    input: Seq<char>,
    name_override: Option<Seq<char>>,
    version_override: Option<Seq<char>>,
    pkg_type_override: Option<Seq<char>>,
    pkg_id_override: Option<Seq<char>>,
)
    ensures
        spec_from_ghcr(input, name_override, version_override, pkg_type_override, pkg_id_override) matches Ok(v) ==> names_safe(v),
        spec_from_url(input, name_override, version_override, pkg_type_override, pkg_id_override) matches Ok(v) ==> names_safe(v),
        spec_from_remote(input, name_override, version_override, pkg_type_override, pkg_id_override) matches Ok(v) ==> names_safe(v),
{
}

/// What a package installed from `source` is described as.
pub open spec fn installed_from(source: Seq<char>) -> Seq<char> {
    "Installed from "@ + source
}

fn copy_opt_text(o: &Option<String>) -> (r: Option<String>)
    ensures
        opt_chars(r) == opt_chars(*o),
{
    match o {
        Some(s) => Some(s.clone()),
        None => None,
    }
}

impl UrlPackage {
    /// The package record to install: from the `local` repository, with a
    /// registry reference where this is one, else a download URL.
    pub fn to_package(&self) -> (p: Package)
        ensures
            p.id == 0,
            p.repo_name@ == "local"@,
            opt_chars(p.pkg_id) == opt_chars(self.pkg_id),
            opt_chars(p.pkg_family) == opt_chars(self.pkg_family),
            p.pkg_name@ == self.pkg_name@,
            opt_chars(p.pkg_type) == opt_chars(self.pkg_type),
            p.version@ == self.version@,
            p.description@ == installed_from(self.url@),
            p.snapshots is None,
            details(p) == no_details(),
            self.is_ghcr ==> p.download_url@ == Seq::<char>::empty() && opt_chars(p.ghcr_pkg) == Some(
                self.url@,
            ) && p.ghcr_size == self.size && p.size is None,
            !self.is_ghcr ==> p.download_url@ == self.url@ && p.size == self.size && p.ghcr_pkg is None
                && p.ghcr_size is None,
    {
        let mut p = Package::default();
        p.repo_name = string_of(&chars_of("local"));
        p.pkg_id = copy_opt_text(&self.pkg_id);
        p.pkg_family = copy_opt_text(&self.pkg_family);
        p.pkg_name = self.pkg_name.clone();
        p.pkg_type = copy_opt_text(&self.pkg_type);
        p.version = self.version.clone();
        p.description = string_of(&concat(&chars_of("Installed from "), &chars_of(self.url.as_str())));
        if self.is_ghcr {
            p.ghcr_pkg = Some(self.url.clone());
            p.ghcr_size = self.size;
        } else {
            p.download_url = self.url.clone();
            p.size = self.size;
        }
        p
    }
}

} // verus!
