//! Package records and the small rules the installer lives by: version
//! placeholders, install markers, hook environments, package queries, where
//! archives extract to, and the relative targets of aliases.

use vstd::prelude::*;

use crate::asset_name::{parse_filename, spec_parse_filename};
use crate::models::{details, no_details, Package};
use crate::release_source::{strip_v, without_v};
use crate::remote::LOCAL_SCHEME;
use crate::soar_error::SoarError;
use crate::text::{
    after_last, after_last_chars, chars_of, concat, contains, contains_seq, find_any, first_of,
    has_char, has_prefix, lowercase, opt_chars, opt_str,
    push_all, replace_all, replace_chars, rows, seq_eq, slice_chars, split, split_chars,
    starts_with, string_of, texts, to_lowercase, trim, trim_chars,
};
use crate::url_package::{detect_pkg_type, spec_pkg_type};
use crate::util::{join_path, path_join};

verus! {

/// A package maintainer.
#[derive(Debug)]
pub struct Maintainer {
    /// The maintainer's name.
    pub name: String,
    /// How to reach them.
    pub contact: String,
}

impl Maintainer {
    /// The maintainer as displayed: `name (contact)`.
    pub fn display(&self) -> (s: String)
        ensures
            s@ == self.name@ + " ("@ + self.contact@ + ")"@,
    {
        let a = concat(&chars_of(self.name.as_str()), &chars_of(" ("));
        let b = concat(&a, &chars_of(self.contact.as_str()));
        string_of(&concat(&b, &chars_of(")")))
    }
}

/// Replace every `{{version}}` placeholder in `s` with `version`.
pub fn resolve_version_placeholder(s: &str, version: &str) -> (r: String)
    ensures
        r@ == replace_all(s@, "{{version}}"@, version@),
{
    let pat = chars_of("{{version}}");
    proof {
        reveal_strlit("{{version}}");
    }
    string_of(&replace_chars(&chars_of(s), &pat, &chars_of(version)))
}

/// Replace every `{{version}}` placeholder in an optional string.
pub fn resolve_version_placeholder_opt(s: Option<&str>, version: &str) -> (r: Option<String>)
    ensures
        match s {
            Some(x) => r matches Some(y) && y@ == replace_all(x@, "{{version}}"@, version@),
            None => r is None,
        },
{
    match s {
        Some(x) => Some(resolve_version_placeholder(x, version)),
        None => None,
    }
}

/// What a partial install records, to check that it belongs to the package
/// being installed.
#[derive(Debug, PartialEq, Eq)]
pub struct InstallMarker {
    /// The package id, where there is one.
    pub pkg_id: Option<String>,
    /// The version installed.
    pub version: String,
    /// The checksum of the download, where known.
    pub bsum: Option<String>,
}

fn opt_eq(a: &Option<String>, b: &Option<String>) -> (r: bool)
    ensures
        r == (match (*a, *b) {
            (Some(x), Some(y)) => x@ == y@,
            (None, None) => true,
            _ => false,
        }),
{
    match (a, b) {
        (Some(x), Some(y)) => seq_eq(&chars_of(x.as_str()), &chars_of(y.as_str())),
        (None, None) => true,
        _ => false,
    }
}

/// Two optional strings hold the same text, or are both absent.
pub open spec fn same_opt(a: Option<String>, b: Option<String>) -> bool {
    match (a, b) {
        (Some(x), Some(y)) => x@ == y@,
        (None, None) => true,
        _ => false,
    }
}

impl InstallMarker {
    /// Whether the marker belongs to `package`: the same id, version and
    /// checksum.
    pub fn matches_package(&self, package: &Package) -> (b: bool)
        ensures
            b == (same_opt(self.pkg_id, package.pkg_id) && self.version@ == package.version@
                && same_opt(self.bsum, package.bsum)),
    {
        opt_eq(&self.pkg_id, &package.pkg_id) && seq_eq(
            &chars_of(self.version.as_str()),
            &chars_of(package.version.as_str()),
        ) && opt_eq(&self.bsum, &package.bsum)
    }
}

/// A zsync feed and the installed copy to rebuild the new artifact from.
#[derive(Debug)]
pub struct ZsyncSeed {
    /// URL of the zsync control file describing the new artifact.
    pub url: String,
    /// The installed artifact to take unchanged blocks from.
    pub seed: String,
}

/// Environment values passed to hook commands.
#[derive(Debug)]
pub struct HookEnv<'a> {
    /// Where the package is installed.
    pub install_dir: &'a str,
    /// The package's name.
    pub pkg_name: &'a str,
    /// The package's id.
    pub pkg_id: &'a str,
    /// The package's version.
    pub pkg_version: &'a str,
}

/// The variables a hook runs with, as (name, value) pairs.
pub open spec fn spec_hook_vars(env: HookEnv, bin_dir: Seq<char>) -> Seq<(Seq<char>, Seq<char>)> {
    seq![
        ("INSTALL_DIR"@, env.install_dir@),
        ("BIN_DIR"@, bin_dir),
        ("PKG_NAME"@, env.pkg_name@),
        ("PKG_ID"@, env.pkg_id@),
        ("PKG_VERSION"@, env.pkg_version@),
    ]
}

fn pair(k: &str, v: &str) -> (p: (String, String))
    ensures
        p.0@ == k@ && p.1@ == v@,
{
    (string_of(&chars_of(k)), string_of(&chars_of(v)))
}

/// The environment a hook command runs with: where the package is
/// installed, where binaries are linked (`bin_dir`), and the package's
/// name, id and version.
pub fn hook_env_vars(env: &HookEnv, bin_dir: &str) -> (r: Vec<(String, String)>)
    ensures
        r@.map_values(|p: (String, String)| (p.0@, p.1@)) == spec_hook_vars(*env, bin_dir@),
{
    let mut r: Vec<(String, String)> = Vec::new();
    r.push(pair("INSTALL_DIR", env.install_dir));
    r.push(pair("BIN_DIR", bin_dir));
    r.push(pair("PKG_NAME", env.pkg_name));
    r.push(pair("PKG_ID", env.pkg_id));
    r.push(pair("PKG_VERSION", env.pkg_version));
    assert(r@.map_values(|p: (String, String)| (p.0@, p.1@)) =~= spec_hook_vars(*env, bin_dir@));
    r
}

/// A package parsed from a local file path.
#[derive(Debug)]
pub struct LocalPackage {
    /// Absolute, expanded path to the source file.
    pub path: String,
    /// Extracted or overridden package name.
    pub pkg_name: String,
    /// Package id, set only by an explicit override.
    pub pkg_id: Option<String>,
    /// Where the file came from.
    pub pkg_family: Option<String>,
    /// Extracted or overridden version.
    pub version: String,
    /// Package type detected from the extension.
    pub pkg_type: Option<String>,
    /// Size of the source file in bytes.
    pub size: Option<u64>,
}

/// The path an input names, where it looks like a path: trimmed and
/// without a `file://` scheme, it starts with `~` or `.` or holds a `/`.
/// Bare registry queries (`jq`, `pkg#id`) never look like one.
pub open spec fn spec_local_candidate(input: Seq<char>) -> Option<Seq<char>> {
    let t = trim(input);
    let c = if starts_with(t, "file://"@) {
        t.subrange(7, t.len() as int)
    } else {
        t
    };
    if (c.len() > 0 && (c[0] == '~' || c[0] == '.')) || c.contains('/') {
        Some(c)
    } else {
        None
    }
}

/// The type of a local package: the override, lowercased, else the one
/// its extension names, else an archive where its contents are one.
pub open spec fn local_pkg_type(
    filename: Seq<char>,
    pkg_type_override: Option<Seq<char>>,
    archive_by_content: bool,
) -> Option<Seq<char>> {
    match pkg_type_override {
        Some(t) => Some(lowercase(t)),
        None => match spec_pkg_type(filename) {
            Some(t) => Some(t),
            None => if archive_by_content {
                Some("archive"@)
            } else {
                None
            },
        },
    }
}

impl LocalPackage {
    /// The path an input names, where it looks like a local path; whether
    /// it is local is then whether that path exists.
    pub fn local_candidate(input: &str) -> (r: Option<String>)
        ensures
            opt_chars(r) == spec_local_candidate(input@),
    {
        let t = trim_chars(&chars_of(input));
        let scheme = chars_of(LOCAL_SCHEME);
        proof {
            reveal_strlit("file://");
        }
        let c = if has_prefix(&t, &scheme) {
            slice_chars(&t, 7, t.len())
        } else {
            slice_chars(&t, 0, t.len())
        };
        assert(t@.subrange(0, t@.len() as int) =~= t@);
        if (c.len() > 0 && (c[0] == '~' || c[0] == '.')) || has_char(&c, '/') {
            Some(string_of(&c))
        } else {
            None
        }
    }

    /// A local package from what is known of its file: its path, its
    /// filename, its size, and whether its contents are an archive. The
    /// name and version come from the filename where no override gives
    /// them (the version without a leading `v`), and the family says that
    /// the package is local.
    pub fn from_parts(
        path: String,
        filename: &str,
        size: Option<u64>,
        archive_by_content: bool,
        name_override: Option<&str>,
        version_override: Option<&str>,
        pkg_type_override: Option<&str>,
        pkg_id_override: Option<&str>,
    ) -> (r: LocalPackage)
        ensures
            ({
                let ty = local_pkg_type(filename@, opt_str(pkg_type_override), archive_by_content);
                let name = match name_override {
                    Some(n) => lowercase(n@),
                    None => spec_parse_filename(filename@).0,
                };
                &&& r.path == path
                &&& r.size == size
                &&& opt_chars(r.pkg_type) == ty
                &&& r.pkg_name@ == name
                &&& r.version@ == match version_override {
                    Some(v) => strip_v(v@),
                    None => spec_parse_filename(filename@).1,
                }
                &&& opt_chars(r.pkg_id) == opt_str(pkg_id_override)
                &&& opt_chars(r.pkg_family) == Some(
                    match ty {
                        Some(t) => "local."@ + name + "-"@ + t,
                        None => "local."@ + name,
                    },
                )
            }),
    {
        let mut pkg_type = match pkg_type_override {
            Some(t) => Some(to_lowercase(t)),
            None => detect_pkg_type(filename),
        };
        if pkg_type.is_none() && archive_by_content {
            proof {
                reveal_strlit("archive");
            }
            pkg_type = Some(string_of(&chars_of("archive")));
        }
        let (ename, ever) = parse_filename(filename);
        let pkg_name = match name_override {
            Some(n) => to_lowercase(n),
            None => ename,
        };
        let version = match version_override {
            Some(v) => string_of(&without_v(&chars_of(v))),
            None => ever,
        };
        let head = concat(&chars_of("local."), &chars_of(pkg_name.as_str()));
        let family = match &pkg_type {
            Some(t) => string_of(&concat(&concat(&head, &chars_of("-")), &chars_of(t.as_str()))),
            None => string_of(&head),
        };
        let pkg_id = match pkg_id_override {
            Some(i) => Some(string_of(&chars_of(i))),
            None => None,
        };
        LocalPackage {
            path,
            pkg_name,
            pkg_id,
            pkg_family: Some(family),
            version,
            pkg_type,
            size,
        }
    }
}


/// Why a relative path named by a recipe is refused before anything is
/// downloaded: it is absolute, or it holds `..`.
pub open spec fn relative_path_failure(relative_path: Seq<char>, path_type: Seq<char>) -> Option<Seq<char>> {
    if relative_path.len() > 0 && relative_path[0] == '/' {
        Some(path_type + " '"@ + relative_path + "' must be a relative path, not absolute"@)
    } else if contains_seq(relative_path, ".."@) {
        Some(path_type + " '"@ + relative_path + "' contains path traversal components"@)
    } else {
        None
    }
}

/// Check a relative path named by a recipe (`path_type` saying what it is)
/// before anything is downloaded: it must not be absolute nor hold `..`.
pub fn validate_relative_path(relative_path: &str, path_type: &str) -> (r: Result<(), SoarError>)
    ensures
        match relative_path_failure(relative_path@, path_type@) {
            None => r is Ok,
            Some(m) => r matches Err(SoarError::Custom(e)) && e@ == m,
        },
{
    let p = chars_of(relative_path);
    let head = concat(&concat(&chars_of(path_type), &chars_of(" '")), &p);
    if p.len() > 0 && p[0] == '/' {
        return Err(
            SoarError::Custom(
                string_of(&concat(&head, &chars_of("' must be a relative path, not absolute"))),
            ),
        );
    }
    if contains(&p, &chars_of("..")) {
        return Err(
            SoarError::Custom(
                string_of(&concat(&head, &chars_of("' contains path traversal components"))),
            ),
        );
    }
    Ok(())
}

/// Where a file a recipe lists is found.
#[derive(Debug, PartialEq, Eq, Structural)]
pub enum SourcePick {
    /// The downloaded artifact is the file.
    Artifact,
    /// The extracted file at this index of those present.
    Present(usize),
}

/// The index of the first of `present` at or after `i` equal to `want`.
pub open spec fn first_equal(present: Seq<Seq<char>>, want: Seq<char>, i: int) -> Option<int>
    decreases present.len() - i,
{
    if i < 0 || i >= present.len() {
        None
    } else if present[i] == want {
        Some(i)
    } else {
        first_equal(present, want, i + 1)
    }
}

/// The index of the first of `present` at or after `i` whose file name
/// (what follows its last `/`) is `name`.
pub open spec fn first_named(present: Seq<Seq<char>>, name: Seq<char>, i: int) -> Option<int>
    decreases present.len() - i,
{
    if i < 0 || i >= present.len() {
        None
    } else if after_last(present[i], '/') == name {
        Some(i)
    } else {
        first_named(present, name, i + 1)
    }
}

/// Where the file listed as `source` is found among the extracted files
/// `present` (their paths relative to the install directory): an empty
/// source is the artifact itself, where it exists; else the first file
/// at the path as written, else at the path without its leading component
/// (an archive's single top-level directory is promoted away), else with
/// the same file name.
pub open spec fn spec_resolve_source(source: Seq<char>, present: Seq<Seq<char>>, artifact_exists: bool) -> Option<
    SourcePick,
> {
    if source.len() == 0 {
        if artifact_exists {
            Some(SourcePick::Artifact)
        } else {
            None
        }
    } else {
        let k = first_of(source, seq!['/'], 0);
        let rest = source.subrange(k + 1, source.len() as int);
        let name = after_last(source, '/');
        match first_equal(present, source, 0) {
            Some(i) => Some(SourcePick::Present(i as usize)),
            None => match if k < source.len() {
                first_equal(present, rest, 0)
            } else {
                None
            } {
                Some(i) => Some(SourcePick::Present(i as usize)),
                None => match first_named(present, name, 0) {
                    Some(i) => Some(SourcePick::Present(i as usize)),
                    None => None,
                },
            },
        }
    }
}

fn find_equal(present: &Vec<String>, want: &Vec<char>) -> (r: Option<usize>)
    ensures
        match first_equal(texts(present@), want@, 0) {
            Some(i) => r == Some(i as usize) && 0 <= i < present@.len(),
            None => r is None,
        },
{
    let ghost ps = texts(present@);
    let mut i: usize = 0;
    while i < present.len()
        invariant
            i <= present@.len(),
            ps == texts(present@),
            first_equal(ps, want@, i as int) == first_equal(ps, want@, 0),
        decreases present.len() - i,
    {
        assert(ps[i as int] == present@[i as int]@);
        if seq_eq(&chars_of(present[i].as_str()), want) {
            return Some(i);
        }
        i = i + 1;
    }
    None
}

fn find_named(present: &Vec<String>, name: &Vec<char>) -> (r: Option<usize>)
    ensures
        match first_named(texts(present@), name@, 0) {
            Some(i) => r == Some(i as usize) && 0 <= i < present@.len(),
            None => r is None,
        },
{
    let ghost ps = texts(present@);
    let mut i: usize = 0;
    while i < present.len()
        invariant
            i <= present@.len(),
            ps == texts(present@),
            first_named(ps, name@, i as int) == first_named(ps, name@, 0),
        decreases present.len() - i,
    {
        assert(ps[i as int] == present@[i as int]@);
        if seq_eq(&after_last_chars(&chars_of(present[i].as_str()), '/'), name) {
            return Some(i);
        }
        i = i + 1;
    }
    None
}

/// Find a file a recipe lists among the extracted files `present` (their
/// paths relative to the install directory), `artifact_exists` saying
/// whether the downloaded artifact is there.
pub fn resolve_source(source: &str, present: &Vec<String>, artifact_exists: bool) -> (r: Option<
    SourcePick,
>)
    ensures
        r == spec_resolve_source(source@, texts(present@), artifact_exists),
{
    let s = chars_of(source);
    if s.len() == 0 {
        return if artifact_exists {
            Some(SourcePick::Artifact)
        } else {
            None
        };
    }
    if let Some(i) = find_equal(present, &s) {
        return Some(SourcePick::Present(i));
    }
    let slash = vec!['/'];
    assert(slash@ =~= seq!['/']);
    let k = find_any(&s, &slash, 0);
    if k < s.len() {
        if let Some(i) = find_equal(present, &slice_chars(&s, k + 1, s.len())) {
            return Some(SourcePick::Present(i));
        }
    }
    match find_named(present, &after_last_chars(&s, '/')) {
        Some(i) => Some(SourcePick::Present(i)),
        None => None,
    }
}

impl LocalPackage {
    /// The package record to install: from the `local` repository, its
    /// source path carried in the download URL under the `file://` scheme
    /// so the installer copies it rather than downloading it.
    pub fn to_package(&self) -> (p: Package)
        ensures
            p.id == 0,
            p.repo_name@ == "local"@,
            opt_chars(p.pkg_id) == opt_chars(self.pkg_id),
            opt_chars(p.pkg_family) == opt_chars(self.pkg_family),
            p.pkg_name@ == self.pkg_name@,
            opt_chars(p.pkg_type) == opt_chars(self.pkg_type),
            p.version@ == self.version@,
            p.download_url@ == "file://"@ + self.path@,
            p.size == self.size,
            p.description@ == "Installed from "@ + self.path@,
            p.ghcr_pkg is None,
            p.ghcr_size is None,
            p.snapshots is None,
            details(p) == no_details(),
    {
        let mut p = Package::default();
        p.repo_name = string_of(&chars_of("local"));
        p.pkg_id = match &self.pkg_id {
            Some(s) => Some(s.clone()),
            None => None,
        };
        p.pkg_family = match &self.pkg_family {
            Some(s) => Some(s.clone()),
            None => None,
        };
        p.pkg_name = self.pkg_name.clone();
        p.pkg_type = match &self.pkg_type {
            Some(s) => Some(s.clone()),
            None => None,
        };
        p.version = self.version.clone();
        let path = chars_of(self.path.as_str());
        p.download_url = string_of(&concat(&chars_of(LOCAL_SCHEME), &path));
        p.size = self.size;
        p.description = string_of(&concat(&chars_of("Installed from "), &path));
        p
    }
}

/// Where an archive under `base_dir` is extracted to.
pub fn get_extract_dir(base_dir: &str) -> (r: String)
    ensures
        r@ == path_join(base_dir@, "SOAR_AUTOEXTRACT"@),
{
    join_path(base_dir, "SOAR_AUTOEXTRACT")
}

/// `buf` with `part` pushed onto it as `PathBuf::push` does for a part
/// holding no `/`: a separator goes between them unless `buf` is empty or
/// already ends in one.
pub open spec fn push_part(buf: Seq<char>, part: Seq<char>) -> Seq<char> {
    if buf.len() > 0 && buf.last() != '/' {
        buf + "/"@ + part
    } else {
        buf + part
    }
}

/// `parts` pushed in order onto `buf`.
pub open spec fn push_parts(buf: Seq<char>, parts: Seq<Seq<char>>) -> Seq<char>
    decreases parts.len(),
{
    if parts.len() == 0 {
        buf
    } else {
        push_parts(push_part(buf, parts[0]), parts.drop_first())
    }
}

/// The number of leading places where `a` and `b` agree.
pub open spec fn shared_prefix(a: Seq<Seq<char>>, b: Seq<Seq<char>>, i: int) -> int
    decreases a.len() - i,
{
    if i < 0 || i >= a.len() || i >= b.len() || a[i] != b[i] {
        i
    } else {
        shared_prefix(a, b, i + 1)
    }
}

/// The path `target` has when read from the directory holding `link`: up
/// out of the link's directories that `target` does not share, then down
/// the rest of `target`; none where that is empty.
pub open spec fn spec_relative_to(link: Seq<char>, target: Seq<char>) -> Option<Seq<char>> {
    let all = split(link, '/');
    let dir = all.subrange(0, all.len() - 1);
    let tp = split(target, '/');
    let shared = shared_prefix(dir, tp, 0);
    let ups = Seq::new((dir.len() - shared) as nat, |i: int| ".."@);
    let out = push_parts(push_parts(Seq::empty(), ups), tp.subrange(shared, tp.len() as int));
    if out.len() > 0 {
        Some(out)
    } else {
        None
    }
}

proof fn lemma_shared_prefix(a: Seq<Seq<char>>, b: Seq<Seq<char>>, i: int)
    requires
        0 <= i <= a.len(),
        i <= b.len(),
    ensures
        i <= shared_prefix(a, b, i) <= a.len(),
        shared_prefix(a, b, i) <= b.len(),
    decreases a.len() - i,
{
    if i < a.len() && i < b.len() && a[i] == b[i] {
        lemma_shared_prefix(a, b, i + 1);
    }
}

proof fn lemma_push_parts_step(buf: Seq<char>, parts: Seq<Seq<char>>, i: int)
    requires
        0 <= i < parts.len(),
    ensures
        push_parts(buf, parts.subrange(0, i + 1)) == push_part(
            push_parts(buf, parts.subrange(0, i)),
            parts[i],
        ),
    decreases i,
{
    let p1 = parts.subrange(0, i + 1);
    if i == 0 {
        assert(p1.drop_first() =~= Seq::<Seq<char>>::empty());
        assert(parts.subrange(0, 0) =~= Seq::<Seq<char>>::empty());
        assert(push_parts(push_part(buf, parts[0]), Seq::<Seq<char>>::empty()) == push_part(
            buf,
            parts[0],
        ));
        assert(p1[0] == parts[0]);
    } else {
        let rest = parts.drop_first();
        lemma_push_parts_step(push_part(buf, parts[0]), rest, i - 1);
        assert(p1.drop_first() =~= rest.subrange(0, i));
        assert(parts.subrange(0, i).drop_first() =~= rest.subrange(0, i - 1));
        assert(rest[i - 1] == parts[i]);
        assert(p1[0] == parts[0]);
        assert(parts.subrange(0, i)[0] == parts[0]);
        assert(push_parts(buf, p1) == push_parts(push_part(buf, parts[0]), rest.subrange(0, i)));
        assert(push_parts(buf, parts.subrange(0, i)) == push_parts(
            push_part(buf, parts[0]),
            rest.subrange(0, i - 1),
        ));
    }
}

fn push_part_exec(buf: &mut Vec<char>, part: &[char])
    ensures
        final(buf)@ == push_part(old(buf)@, part@),
{
    proof {
        reveal_strlit("/");
    }
    if buf.len() > 0 && buf[buf.len() - 1] != '/' {
        buf.push('/');
    }
    push_all(buf, part);
}

/// Segments of a plain path: each non-empty, free of `/`, and neither `.`
/// nor `..`.
pub open spec fn plain_segments(parts: Seq<Seq<char>>) -> bool {
    forall|i: int|
        0 <= i < parts.len() ==> (#[trigger] parts[i]).len() > 0 && !parts[i].contains('/')
            && parts[i] != "."@ && parts[i] != ".."@
}

/// The directory reached from `dir` (given by its segments) by following
/// the segments `parts`: `..` leaves the innermost directory, any other
/// segment enters it.
pub open spec fn walk(dir: Seq<Seq<char>>, parts: Seq<Seq<char>>) -> Seq<Seq<char>>
    decreases parts.len(),
{
    if parts.len() == 0 {
        dir
    } else if parts[0] == ".."@ {
        walk(dir.drop_last(), parts.drop_first())
    } else {
        walk(dir.push(parts[0]), parts.drop_first())
    }
}

/// The segments a path is made of.
pub open spec fn segments(p: Seq<char>) -> Seq<Seq<char>> {
    split(p, '/')
}

/// The directory that holds `link`, by its segments.
pub open spec fn link_dir(link: Seq<char>) -> Seq<Seq<char>> {
    segments(link).subrange(0, segments(link).len() - 1)
}

proof fn lemma_split_snoc(x: Seq<char>, p: Seq<char>)
    requires
        !p.contains('/'),
    ensures
        split(x + seq!['/'] + p, '/') == split(x, '/').push(p),
    decreases x.len(),
{
    let k = first_of(x, seq!['/'], 0);
    crate::text::lemma_first_of(x, seq!['/'], 0);
    if k == x.len() {
        assert(!x.contains('/')) by {
            if x.contains('/') {
                let j = choose|j: int| 0 <= j < x.len() && x[j] == '/';
                assert(seq!['/'][0] == x[j]);
                assert(seq!['/'].contains(x[j]));
            }
        }
        crate::text::lemma_split_cons(x, '/', p);
        crate::text::lemma_split_single(p, '/');
        crate::text::lemma_split_single(x, '/');
        assert(seq![x] + seq![p] =~= seq![x].push(p));
    } else {
        let a = x.subrange(0, k);
        let b = x.subrange(k + 1, x.len() as int);
        assert(seq!['/'].contains(x[k]));
        assert(x[k] == '/');
        assert(x =~= a + seq!['/'] + b);
        assert(!a.contains('/')) by {
            if a.contains('/') {
                let j = choose|j: int| 0 <= j < a.len() && a[j] == '/';
                assert(x[j] == '/');
                assert(seq!['/'][0] == x[j]);
                assert(seq!['/'].contains(x[j]));
            }
        }
        lemma_split_snoc(b, p);
        crate::text::lemma_split_cons(a, '/', b + seq!['/'] + p);
        assert(x + seq!['/'] + p =~= a + seq!['/'] + (b + seq!['/'] + p));
        crate::text::lemma_split_cons(a, '/', b);
        assert(seq![a] + split(b, '/').push(p) =~= (seq![a] + split(b, '/')).push(p));
    }
}

proof fn lemma_push_parts_split(buf: Seq<char>, parts: Seq<Seq<char>>)
    requires
        buf.len() > 0,
        buf.last() != '/',
        forall|i: int| 0 <= i < parts.len() ==> (#[trigger] parts[i]).len() > 0 && !parts[i].contains('/'),
    ensures
        split(push_parts(buf, parts), '/') == split(buf, '/') + parts,
        push_parts(buf, parts).len() > 0,
        push_parts(buf, parts).last() != '/',
    decreases parts.len(),
{
    if parts.len() == 0 {
        assert(split(buf, '/') + parts =~= split(buf, '/'));
    } else {
        let p0 = parts[0];
        let next = push_part(buf, p0);
        assert(next == buf + "/"@ + p0);
        reveal_strlit("/");
        assert("/"@ =~= seq!['/']);
        lemma_split_snoc(buf, p0);
        assert(next.last() == p0.last());
        assert(p0.contains(p0.last()) ==> p0.last() != '/');
        assert(p0[p0.len() - 1] == p0.last());
        lemma_push_parts_split(next, parts.drop_first());
        assert(split(buf, '/').push(p0) + parts.drop_first() =~= split(buf, '/') + parts);
    }
}

proof fn lemma_push_parts_concat(buf: Seq<char>, x: Seq<Seq<char>>, y: Seq<Seq<char>>)
    ensures
        push_parts(push_parts(buf, x), y) == push_parts(buf, x + y),
    decreases x.len(),
{
    if x.len() == 0 {
        assert(x + y =~= y);
    } else {
        lemma_push_parts_concat(push_part(buf, x[0]), x.drop_first(), y);
        assert((x + y).drop_first() =~= x.drop_first() + y);
        assert((x + y)[0] == x[0]);
    }
}

proof fn lemma_walk_up(dir: Seq<Seq<char>>, n: int, rest: Seq<Seq<char>>)
    requires
        0 <= n <= dir.len(),
    ensures
        walk(dir, Seq::new(n as nat, |i: int| ".."@) + rest) == walk(
            dir.subrange(0, dir.len() - n),
            rest,
        ),
    decreases n,
{
    let ups = Seq::new(n as nat, |i: int| ".."@);
    if n == 0 {
        assert(ups + rest =~= rest);
        assert(dir.subrange(0, dir.len() as int) =~= dir);
    } else {
        assert((ups + rest)[0] == ".."@);
        assert((ups + rest).drop_first() =~= Seq::new((n - 1) as nat, |i: int| ".."@) + rest);
        lemma_walk_up(dir.drop_last(), n - 1, rest);
        assert(dir.drop_last().subrange(0, dir.drop_last().len() - (n - 1)) =~= dir.subrange(
            0,
            dir.len() - n,
        ));
    }
}

proof fn lemma_walk_down(dir: Seq<Seq<char>>, rest: Seq<Seq<char>>)
    requires
        forall|i: int| 0 <= i < rest.len() ==> #[trigger] rest[i] != ".."@,
    ensures
        walk(dir, rest) == dir + rest,
    decreases rest.len(),
{
    if rest.len() == 0 {
        assert(dir + rest =~= dir);
    } else {
        assert(rest[0] != ".."@);
        lemma_walk_down(dir.push(rest[0]), rest.drop_first());
        assert(dir.push(rest[0]) + rest.drop_first() =~= dir + rest);
    }
}

proof fn lemma_shared_agrees(a: Seq<Seq<char>>, b: Seq<Seq<char>>, i: int)
    requires
        0 <= i <= a.len(),
        i <= b.len(),
        forall|k: int| 0 <= k < i ==> a[k] == b[k],
    ensures
        forall|k: int| 0 <= k < shared_prefix(a, b, i) ==> a[k] == b[k],
        shared_prefix(a, b, i) == a.len() || shared_prefix(a, b, i) == b.len() || a[shared_prefix(a, b, i)] != b[shared_prefix(a, b, i)],
    decreases a.len() - i,
{
    if i < a.len() && i < b.len() && a[i] == b[i] {
        lemma_shared_agrees(a, b, i + 1);
    }
}

/// Read from the directory that holds `link`, the relative path an alias
/// gets leads to its target: walking its segments from that directory
/// (`..` up, any other segment down) arrives at the target's segments. No
/// path is given exactly where the target is that directory itself. The
/// target is a plain relative path (non-empty segments, none `.` or `..`).
pub proof fn lemma_relative_to_reaches_target(link: Seq<char>, target: Seq<char>)
    requires
        plain_segments(segments(target)),
    ensures
        spec_relative_to(link, target) is None <==> segments(target) == link_dir(link),
        spec_relative_to(link, target) matches Some(r) ==> walk(link_dir(link), segments(r))
            == segments(target),
{
    let all = split(link, '/');
    crate::text::lemma_split_nonempty(link, '/', 0, 0);
    let dir = all.subrange(0, all.len() - 1);
    let tp = split(target, '/');
    let shared = shared_prefix(dir, tp, 0);
    lemma_shared_prefix(dir, tp, 0);
    lemma_shared_agrees(dir, tp, 0);
    let n = dir.len() - shared;
    let ups = Seq::new(n as nat, |i: int| ".."@);
    let rest = tp.subrange(shared, tp.len() as int);
    let parts = ups + rest;
    lemma_push_parts_concat(Seq::empty(), ups, rest);
    let out = push_parts(Seq::empty(), parts);
    reveal_strlit("..");
    assert forall|i: int| 0 <= i < parts.len() implies (#[trigger] parts[i]).len() > 0 && !parts[i].contains('/') by {
        if i < n {
            assert(parts[i] == ".."@);
            assert(!".."@.contains('/')) by {
                if ".."@.contains('/') {
                    let j = choose|j: int| 0 <= j < ".."@.len() && ".."@[j] == '/';
                }
            }
        } else {
            assert(parts[i] == tp[shared + i - n]);
        }
    }
    if parts.len() == 0 {
        assert(out == Seq::<char>::empty());
        assert(tp =~= dir);
    } else {
        let p0 = parts[0];
        assert(push_parts(Seq::empty(), parts) == push_parts(push_part(Seq::empty(), p0), parts.drop_first()));
        assert(push_part(Seq::empty(), p0) == p0);
        assert(p0[p0.len() - 1] == p0.last());
        lemma_push_parts_split(p0, parts.drop_first());
        crate::text::lemma_split_single(p0, '/');
        assert(seq![p0] + parts.drop_first() =~= parts);
        assert(segments(out) == parts);
        assert(out.len() > 0);
        lemma_walk_up(dir, n, rest);
        assert forall|i: int| 0 <= i < rest.len() implies #[trigger] rest[i] != ".."@ by {
            assert(rest[i] == tp[shared + i]);
        }
        lemma_walk_down(dir.subrange(0, shared), rest);
        assert(dir.subrange(0, shared) + rest =~= tp);
        assert(tp != dir) by {
            if tp == dir {
                assert(shared == dir.len());
                assert(rest.len() == 0);
            }
        }
    }
}

/// The path `target` has when read from the directory holding `link`, for
/// an alias placed at `link`; relative, so the package directory stays
/// movable.
pub fn relative_to(link: &str, target: &str) -> (r: Option<String>)
    ensures
        match spec_relative_to(link@, target@) {
            Some(p) => r matches Some(x) && x@ == p,
            None => r is None,
        },
{
    let all = split_chars(&chars_of(link), '/');
    let tp = split_chars(&chars_of(target), '/');
    let ghost all_s = rows(all@);
    let ghost tp_s = rows(tp@);
    proof {
        crate::text::lemma_split_nonempty(link@, '/', 0, 0);
    }
    let dir_len = all.len() - 1;
    let ghost dir = all_s.subrange(0, dir_len as int);
    let mut shared: usize = 0;
    while shared < dir_len && shared < tp.len() && seq_eq(all[shared].as_slice(), tp[shared].as_slice())
        invariant
            dir_len == all@.len() - 1,
            all_s == rows(all@),
            tp_s == rows(tp@),
            dir == all_s.subrange(0, dir_len as int),
            shared <= dir_len,
            shared <= tp@.len(),
            shared_prefix(dir, tp_s, shared as int) == shared_prefix(dir, tp_s, 0),
        decreases dir_len - shared,
    {
        assert(dir[shared as int] == all@[shared as int]@);
        assert(tp_s[shared as int] == tp@[shared as int]@);
        shared = shared + 1;
    }
    proof {
        if shared < dir_len && shared < tp@.len() {
            assert(dir[shared as int] == all@[shared as int]@);
            assert(tp_s[shared as int] == tp@[shared as int]@);
        }
        assert(shared_prefix(dir, tp_s, shared as int) == shared as int);
    }
    let ghost ups = Seq::new((dir.len() - shared) as nat, |i: int| ".."@);
    let mut out: Vec<char> = Vec::new();
    let up = chars_of("..");
    let mut k: usize = shared;
    while k < dir_len
        invariant
            shared <= k <= dir_len,
            up@ == ".."@,
            dir.len() == dir_len,
            ups == Seq::new((dir.len() - shared) as nat, |i: int| ".."@),
            out@ == push_parts(Seq::empty(), ups.subrange(0, k - shared)),
        decreases dir_len - k,
    {
        proof {
            lemma_push_parts_step(Seq::empty(), ups, k - shared);
        }
        push_part_exec(&mut out, &up);
        k = k + 1;
    }
    assert(ups.subrange(0, dir_len - shared) =~= ups);
    let ghost base = out@;
    let ghost rest = tp_s.subrange(shared as int, tp_s.len() as int);
    let mut m: usize = shared;
    while m < tp.len()
        invariant
            shared <= m <= tp@.len(),
            tp_s == rows(tp@),
            rest == tp_s.subrange(shared as int, tp_s.len() as int),
            out@ == push_parts(base, rest.subrange(0, m - shared)),
        decreases tp.len() - m,
    {
        proof {
            lemma_push_parts_step(base, rest, m - shared);
        }
        assert(rest[m - shared] == tp@[m as int]@);
        push_part_exec(&mut out, tp[m].as_slice());
        m = m + 1;
    }
    assert(rest.subrange(0, tp@.len() - shared) =~= rest);
    if out.len() > 0 {
        Some(string_of(&out))
    } else {
        None
    }
}

/// A relative path that stays inside the directory it is joined to: not
/// empty, not absolute, not starting with `.` as its own component, and
/// without a `..` component.
pub open spec fn spec_is_safe_relative(p: Seq<char>) -> bool {
    &&& p.len() > 0
    &&& p[0] != '/'
    &&& split(p, '/')[0] != "."@
    &&& forall|i: int| 0 <= i < split(p, '/').len() ==> #[trigger] split(p, '/')[i] != ".."@
}

/// Whether a path stays inside the directory it is joined to.
pub fn is_safe_relative(path: &str) -> (b: bool)
    ensures
        b == spec_is_safe_relative(path@),
{
    let p = chars_of(path);
    if p.len() == 0 || p[0] == '/' {
        return false;
    }
    let parts = split_chars(&p, '/');
    proof {
        crate::text::lemma_split_nonempty(path@, '/', 0, 0);
    }
    assert(rows(parts@)[0] == parts@[0]@);
    if seq_eq(parts[0].as_slice(), &chars_of(".")) {
        return false;
    }
    let up = chars_of("..");
    let mut i: usize = 0;
    while i < parts.len()
        invariant
            i <= parts@.len(),
            up@ == ".."@,
            rows(parts@) == split(path@, '/'),
            forall|k: int| 0 <= k < i ==> (#[trigger] rows(parts@)[k]) != ".."@,
        decreases parts.len() - i,
    {
        assert(rows(parts@)[i as int] == parts@[i as int]@);
        if seq_eq(parts[i].as_slice(), &up) {
            assert(split(path@, '/')[i as int] == ".."@);
            return false;
        }
        i = i + 1;
    }
    true
}

/// A parsed package query, `family/name#id@version:repo`, each part
/// optional.
#[derive(Debug)]
pub struct PackageQuery {
    /// The package name.
    pub name: Option<String>,
    /// The family, narrowing a name that more than one project publishes.
    pub family: Option<String>,
    /// The repository.
    pub repo_name: Option<String>,
    /// The package id (deprecated: repositories no longer publish one).
    pub pkg_id: Option<String>,
    /// The version.
    pub version: Option<String>,
}

/// The parts of a query, as plain values: family, name, id, version,
/// repository.
pub type QueryParts = (
    Option<Seq<char>>,
    Option<Seq<char>>,
    Option<Seq<char>>,
    Option<Seq<char>>,
    Option<Seq<char>>,
);

/// The repository part of `r` at `i`: nothing at the end, else `:` and the
/// rest, which must be non-empty and hold no `:`.
pub open spec fn repo_part(r: Seq<char>, i: int) -> Option<Option<Seq<char>>> {
    if i >= r.len() {
        Some(None)
    } else if r[i] == ':' {
        let e = first_of(r, seq![':'], i + 1);
        if e > i + 1 && e == r.len() {
            Some(Some(r.subrange(i + 1, r.len() as int)))
        } else {
            None
        }
    } else {
        None
    }
}

/// The version and repository parts of `r` at `i`: `@` and a non-empty
/// version up to the next `:`, then the repository part.
pub open spec fn version_part(r: Seq<char>, i: int) -> Option<(Option<Seq<char>>, Option<Seq<char>>)> {
    if i < r.len() && r[i] == '@' {
        let e = first_of(r, seq![':'], i + 1);
        if e == i + 1 {
            None
        } else {
            match repo_part(r, e) {
                Some(rep) => Some((Some(r.subrange(i + 1, e)), rep)),
                None => None,
            }
        }
    } else {
        match repo_part(r, i) {
            Some(rep) => Some((None, rep)),
            None => None,
        }
    }
}

/// The id, version and repository parts of `r` at `i`: `#` and a
/// non-empty id up to the next `@` or `:`, then the version part.
pub open spec fn id_part(r: Seq<char>, i: int) -> Option<
    (Option<Seq<char>>, Option<Seq<char>>, Option<Seq<char>>),
> {
    if i < r.len() && r[i] == '#' {
        let e = first_of(r, seq!['@', ':'], i + 1);
        if e == i + 1 {
            None
        } else {
            match version_part(r, e) {
                Some((v, rep)) => Some((Some(r.subrange(i + 1, e)), v, rep)),
                None => None,
            }
        }
    } else {
        match version_part(r, i) {
            Some((v, rep)) => Some((None, v, rep)),
            None => None,
        }
    }
}

/// The name and the parts after it: the name runs up to the first `/`,
/// `#`, `@` or `:` and is absent where that is at the start.
pub open spec fn name_part(r: Seq<char>) -> Option<
    (Option<Seq<char>>, Option<Seq<char>>, Option<Seq<char>>, Option<Seq<char>>),
> {
    let a = first_of(r, seq!['/', '#', '@', ':'], 0);
    match id_part(r, a) {
        Some((id, v, rep)) => Some(
            (
                if a > 0 {
                    Some(r.subrange(0, a))
                } else {
                    None
                },
                id,
                v,
                rep,
            ),
        ),
        None => None,
    }
}

/// The parts of a query `q`: a family where `q` starts with a non-empty
/// run free of `#`, `@` and `:` followed by `/`, then the name and the
/// parts after it; none where `q` has another shape.
pub open spec fn spec_query_parts(q: Seq<char>) -> Option<QueryParts> {
    let k = first_of(q, seq!['/'], 0);
    let family = k < q.len() && k > 0 && first_of(q, seq!['#', '@', ':'], 0) >= k;
    let rest = if family {
        q.subrange(k + 1, q.len() as int)
    } else {
        q
    };
    match name_part(rest) {
        Some((n, id, v, rep)) => Some(
            (
                if family {
                    Some(q.subrange(0, k))
                } else {
                    None
                },
                n,
                id,
                v,
                rep,
            ),
        ),
        None => None,
    }
}

/// Why a query is refused, or its parts: the query is trimmed and
/// lowercased; it must not be empty, must have the shape of a query, and
/// must name a package or an id (`all` only with a name).
pub open spec fn spec_parse_query(value: Seq<char>) -> Result<QueryParts, Seq<char>> {
    let q = lowercase(trim(value));
    if q.len() == 0 {
        Err("Package query can't be empty"@)
    } else {
        match spec_query_parts(q) {
            None => Err("Invalid package query format"@),
            Some(p) => if p.2 is None && p.1 is None {
                Err("Either package name or pkg_id is required"@)
            } else if p.2 == Some("all"@) && p.1 is None {
                Err("For all, package name is required."@)
            } else {
                Ok(p)
            },
        }
    }
}

/// No character of `s` is one of `cs`.
pub open spec fn free_of(s: Seq<char>, cs: Seq<char>) -> bool {
    forall|k: int| 0 <= k < s.len() ==> !cs.contains(#[trigger] s[k])
}

/// Where a part of `r` runs from `i` to the first of `cs` after it, that
/// part is free of `cs`.
proof fn lemma_part_free(r: Seq<char>, cs: Seq<char>, i: int)
    requires
        0 <= i <= r.len(),
    ensures
        free_of(r.subrange(i, first_of(r, cs, i)), cs),
        i <= first_of(r, cs, i) <= r.len(),
{
    crate::text::lemma_first_of(r, cs, i);
    let e = first_of(r, cs, i);
    assert forall|k: int| 0 <= k < e - i implies !cs.contains(#[trigger] r.subrange(i, e)[k]) by {
        assert(r.subrange(i, e)[k] == r[i + k]);
    }
}

proof fn lemma_repo_part_free(r: Seq<char>, i: int)
    requires
        0 <= i <= r.len(),
    ensures
        repo_part(r, i) matches Some(Some(x)) ==> free_of(x, seq![':']),
{
    if i < r.len() && r[i] == ':' {
        lemma_part_free(r, seq![':'], i + 1);
        let e = first_of(r, seq![':'], i + 1);
        if e == r.len() {
            assert(r.subrange(i + 1, e) =~= r.subrange(i + 1, r.len() as int));
        }
    }
}

proof fn lemma_version_part_free(r: Seq<char>, i: int)
    requires
        0 <= i <= r.len(),
    ensures
        version_part(r, i) matches Some((v, rep)) ==> (v matches Some(x) ==> free_of(x, seq![':']))
            && (rep matches Some(x) ==> free_of(x, seq![':'])),
{
    if i < r.len() && r[i] == '@' {
        lemma_part_free(r, seq![':'], i + 1);
        lemma_repo_part_free(r, first_of(r, seq![':'], i + 1));
    } else {
        lemma_repo_part_free(r, i);
    }
}

proof fn lemma_id_part_free(r: Seq<char>, i: int)
    requires
        0 <= i <= r.len(),
    ensures
        id_part(r, i) matches Some((id, v, rep)) ==> (id matches Some(x) ==> free_of(
            x,
            seq!['@', ':'],
        )) && (v matches Some(x) ==> free_of(x, seq![':'])) && (rep matches Some(x) ==> free_of(
            x,
            seq![':'],
        )),
{
    if i < r.len() && r[i] == '#' {
        lemma_part_free(r, seq!['@', ':'], i + 1);
        lemma_version_part_free(r, first_of(r, seq!['@', ':'], i + 1));
    } else {
        lemma_version_part_free(r, i);
    }
}

/// The parts of a query hold none of the characters that delimit them:
/// the family and the name no `/`, `#`, `@` or `:`, the id no `@` or `:`,
/// the version and the repository no `:`.
pub proof fn lemma_query_parts_undelimited(value: Seq<char>)
    ensures
        spec_parse_query(value) matches Ok(p) ==> {
            &&& p.0 matches Some(f) ==> free_of(f, seq!['/', '#', '@', ':'])
            &&& p.1 matches Some(n) ==> free_of(n, seq!['/', '#', '@', ':'])
            &&& p.2 matches Some(i) ==> free_of(i, seq!['@', ':'])
            &&& p.3 matches Some(v) ==> free_of(v, seq![':'])
            &&& p.4 matches Some(r) ==> free_of(r, seq![':'])
        },
{
    let q = lowercase(trim(value));
    let k = first_of(q, seq!['/'], 0);
    lemma_part_free(q, seq!['/'], 0);
    lemma_part_free(q, seq!['#', '@', ':'], 0);
    let family = k < q.len() && k > 0 && first_of(q, seq!['#', '@', ':'], 0) >= k;
    let rest = if family {
        q.subrange(k + 1, q.len() as int)
    } else {
        q
    };
    if family {
        let f = q.subrange(0, k);
        assert forall|j: int| 0 <= j < f.len() implies !seq!['/', '#', '@', ':'].contains(#[trigger] f[j]) by {
            assert(f[j] == q.subrange(0, k)[j]);
            assert(!seq!['/'].contains(q.subrange(0, k)[j]));
            assert(q.subrange(0, first_of(q, seq!['#', '@', ':'], 0))[j] == f[j]);
            assert(!seq!['#', '@', ':'].contains(f[j]));
            if seq!['/', '#', '@', ':'].contains(f[j]) {
                let w = choose|w: int| 0 <= w < 4 && seq!['/', '#', '@', ':'][w] == f[j];
                if w == 0 {
                    assert(seq!['/'][0] == f[j]);
                } else {
                    assert(seq!['#', '@', ':'][w - 1] == f[j]);
                }
            }
        }
    }
    let a = first_of(rest, seq!['/', '#', '@', ':'], 0);
    lemma_part_free(rest, seq!['/', '#', '@', ':'], 0);
    lemma_id_part_free(rest, a);
}

fn piece(r: &Vec<char>, from: usize, to: usize) -> (s: String)
    requires
        from <= to <= r@.len(),
    ensures
        s@ == r@.subrange(from as int, to as int),
{
    string_of(&slice_chars(r, from, to))
}

fn repo_part_exec(r: &Vec<char>, i: usize) -> (out: Option<Option<String>>)
    requires
        i <= r@.len(),
    ensures
        match repo_part(r@, i as int) {
            Some(x) => out matches Some(y) && agrees(x, y),
            None => out is None,
        },
{
    if i >= r.len() {
        return Some(None);
    }
    if r[i] != ':' {
        return None;
    }
    let colon = vec![':'];
    assert(colon@ =~= seq![':']);
    let e = find_any(r, &colon, i + 1);
    if e > i + 1 && e == r.len() {
        Some(Some(piece(r, i + 1, r.len())))
    } else {
        None
    }
}

fn version_part_exec(r: &Vec<char>, i: usize) -> (out: Option<(Option<String>, Option<String>)>)
    requires
        i <= r@.len(),
    ensures
        match version_part(r@, i as int) {
            Some((v, rep)) => out matches Some((ov, orep)) && agrees(v, ov) && agrees(rep, orep),
            None => out is None,
        },
{
    if i < r.len() && r[i] == '@' {
        let colon = vec![':'];
        assert(colon@ =~= seq![':']);
        let e = find_any(r, &colon, i + 1);
        if e == i + 1 {
            return None;
        }
        match repo_part_exec(r, e) {
            Some(rep) => Some((Some(piece(r, i + 1, e)), rep)),
            None => None,
        }
    } else {
        match repo_part_exec(r, i) {
            Some(rep) => Some((None, rep)),
            None => None,
        }
    }
}

/// Optional texts that agree.
pub open spec fn agrees(a: Option<Seq<char>>, b: Option<String>) -> bool {
    match (a, b) {
        (Some(x), Some(y)) => x == y@,
        (None, None) => true,
        _ => false,
    }
}

fn id_part_exec(r: &Vec<char>, i: usize) -> (out: Option<
    (Option<String>, Option<String>, Option<String>),
>)
    requires
        i <= r@.len(),
    ensures
        match id_part(r@, i as int) {
            Some((id, v, rep)) => out matches Some((oi, ov, orep)) && agrees(id, oi) && agrees(v, ov)
                && agrees(rep, orep),
            None => out is None,
        },
{
    if i < r.len() && r[i] == '#' {
        let stops = vec!['@', ':'];
        assert(stops@ =~= seq!['@', ':']);
        let e = find_any(r, &stops, i + 1);
        if e == i + 1 {
            return None;
        }
        match version_part_exec(r, e) {
            Some((v, rep)) => Some((Some(piece(r, i + 1, e)), v, rep)),
            None => None,
        }
    } else {
        match version_part_exec(r, i) {
            Some((v, rep)) => Some((None, v, rep)),
            None => None,
        }
    }
}

impl PackageQuery {
    /// Parse a package query: trimmed and lowercased, then
    /// `family/name#id@version:repo`, anchored at both ends, each part
    /// optional but a name or an id required.
    pub fn parse(value: &str) -> (r: Result<PackageQuery, SoarError>)
        ensures
            match spec_parse_query(value@) {
                Ok(p) => r matches Ok(q) && agrees(p.0, q.family) && agrees(p.1, q.name) && agrees(
                    p.2,
                    q.pkg_id,
                ) && agrees(p.3, q.version) && agrees(p.4, q.repo_name),
                Err(m) => r matches Err(SoarError::InvalidPackageQuery(e)) && e@ == m,
            },
    {
        let t = string_of(&trim_chars(&chars_of(value)));
        let q = chars_of(to_lowercase(t.as_str()).as_str());
        if q.len() == 0 {
            return Err(
                SoarError::InvalidPackageQuery(string_of(&chars_of("Package query can't be empty"))),
            );
        }
        let slash = vec!['/'];
        assert(slash@ =~= seq!['/']);
        let specials = vec!['#', '@', ':'];
        assert(specials@ =~= seq!['#', '@', ':']);
        let k = find_any(&q, &slash, 0);
        let family = k < q.len() && k > 0 && find_any(&q, &specials, 0) >= k;
        let rest = if family {
            slice_chars(&q, k + 1, q.len())
        } else {
            q.clone()
        };
        let stops = vec!['/', '#', '@', ':'];
        assert(stops@ =~= seq!['/', '#', '@', ':']);
        let a = find_any(&rest, &stops, 0);
        let parts = id_part_exec(&rest, a);
        let (pkg_id, version, repo_name) = match parts {
            Some(p) => p,
            None => {
                return Err(
                    SoarError::InvalidPackageQuery(string_of(&chars_of("Invalid package query format"))),
                );
            },
        };
        let name = if a > 0 {
            Some(piece(&rest, 0, a))
        } else {
            None
        };
        let family = if family {
            Some(piece(&q, 0, k))
        } else {
            None
        };
        if pkg_id.is_none() && name.is_none() {
            return Err(
                SoarError::InvalidPackageQuery(
                    string_of(&chars_of("Either package name or pkg_id is required")),
                ),
            );
        }
        let all = match &pkg_id {
            Some(i) => seq_eq(&chars_of(i.as_str()), &chars_of("all")),
            None => false,
        };
        if all && name.is_none() {
            return Err(
                SoarError::InvalidPackageQuery(
                    string_of(&chars_of("For all, package name is required.")),
                ),
            );
        }
        Ok(PackageQuery { repo_name, family, pkg_id, name, version })
    }
}

} // verus!
