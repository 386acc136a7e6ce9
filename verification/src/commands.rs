//! The decisions behind three of the package manager's commands: updating
//! soar itself (which channel, which release, which asset), summing up the
//! installed packages, and finding a package's build log or script.

use vstd::prelude::*;

use crate::cli::InspectType;
use crate::config::{parse_u64, spec_parse_u64};
use crate::text::{
    chars_of, concat, contains, lower_chars, lowercase, trim, trim_chars, contains_seq, first_occurrence, first_word, first_word_bounds,
    find_seq_from, has_prefix, lemma_first_occurrence, replace_all, replace_chars, seq_eq, slice_chars, starts_with,
    string_of, trim_start_char, trim_start_chars,
};

verus! {

// ─── updating soar itself ───────────────────────────────────────────────

/// Whether `s` is a version as `semver::Version::parse` reads one.
pub uninterp spec fn semver_parses(s: Seq<char>) -> bool;

/// Whether version `a` comes after version `b` in the order of
/// `semver::Version`.
pub uninterp spec fn semver_gt(a: Seq<char>, b: Seq<char>) -> bool;

/// `semver::Version::parse`: whether `s` parses. The answer depends on `s`
/// alone and is named, not spelled out; the grammar is the crate's.
#[verifier::external_body]
fn version_parses(s: &str) -> (b: bool)
    ensures
        b == semver_parses(s@),
{
    semver::Version::parse(s).is_ok()
}

/// `>` on `semver::Version` (its derived order: major, minor and patch,
/// then pre-release and build metadata) between the versions that `a` and
/// `b` parse to. The answer depends on the two strings alone and is named.
#[verifier::external_body]
fn version_newer(a: &str, b: &str) -> (r: bool)
    requires
        semver_parses(a@),
        semver_parses(b@),
    ensures
        r == semver_gt(a@, b@),
{
    match (semver::Version::parse(a), semver::Version::parse(b)) {
        (Ok(x), Ok(y)) => x > y,
        _ => false,
    }
}

/// The channel an update targets: nightly where only `SOAR_NIGHTLY` is
/// set, stable where only `SOAR_RELEASE` is, else the running build's own.
pub fn update_channel(nightly_env: bool, release_env: bool, is_nightly: bool) -> (b: bool)
    ensures
        b == if nightly_env && !release_env {
            true
        } else if !nightly_env && release_env {
            false
        } else {
            is_nightly
        },
{
    if nightly_env && !release_env {
        true
    } else if !nightly_env && release_env {
        false
    } else {
        is_nightly
    }
}

/// Whether a version or tag names a nightly build.
pub open spec fn is_nightly(v: Seq<char>) -> bool {
    starts_with(v, "nightly"@)
}

/// Whether the release tagged `tag` and named `name` is an update for the
/// running build `self_version` on the target channel: on the nightly
/// channel, a nightly of another name; on the stable channel, a stable
/// release whose version (the tag without its leading `v`s) is newer, where
/// both versions parse; where the running version does not parse, any
/// release when the running build is a nightly, none otherwise.
pub open spec fn release_wanted(
    tag: Seq<char>,
    name: Seq<char>,
    self_version: Seq<char>,
    target_nightly: bool,
) -> bool {
    if target_nightly {
        is_nightly(tag) && name != self_version
    } else {
        let v = trim_start_char(tag, 'v');
        if !semver_parses(self_version) {
            is_nightly(self_version)
        } else if !semver_parses(v) {
            false
        } else {
            !is_nightly(tag) && semver_gt(v, self_version)
        }
    }
}

/// The index of the first release, at or after `i`, that is an update.
pub open spec fn first_wanted(
    releases: Seq<(String, String)>,
    self_version: Seq<char>,
    target_nightly: bool,
    i: int,
) -> Option<int>
    decreases releases.len() - i,
{
    if i < 0 || i >= releases.len() {
        None
    } else if release_wanted(releases[i].0@, releases[i].1@, self_version, target_nightly) {
        Some(i)
    } else {
        first_wanted(releases, self_version, target_nightly, i + 1)
    }
}

proof fn lemma_first_wanted_from(
    releases: Seq<(String, String)>,
    self_version: Seq<char>,
    target_nightly: bool,
    i: int,
)
    requires
        0 <= i,
    ensures
        match first_wanted(releases, self_version, target_nightly, i) {
            Some(k) => i <= k < releases.len() && release_wanted(
                releases[k].0@,
                releases[k].1@,
                self_version,
                target_nightly,
            ) && forall|j: int|
                i <= j < k ==> !release_wanted(
                    (#[trigger] releases[j]).0@,
                    releases[j].1@,
                    self_version,
                    target_nightly,
                ),
            None => forall|j: int|
                i <= j < releases.len() ==> !release_wanted(
                    (#[trigger] releases[j]).0@,
                    releases[j].1@,
                    self_version,
                    target_nightly,
                ),
        },
    decreases releases.len() - i,
{
    if i < releases.len() {
        lemma_first_wanted_from(releases, self_version, target_nightly, i + 1);
    }
}

/// The update picked on the nightly channel is the first release tagged
/// as a nightly under another name than the running build's; on the
/// stable channel, for a running version that parses, it is the first
/// release that is not a nightly and whose tag, less its leading `v`s, is
/// a newer version. Every release before the one picked fails that test,
/// and where every release does, none is picked.
pub proof fn lemma_pick_update_is_first_newer(
    releases: Seq<(String, String)>,
    self_version: Seq<char>,
    target_nightly: bool,
)
    ensures
        target_nightly ==> match first_wanted(releases, self_version, true, 0) {
            Some(k) => 0 <= k < releases.len() && starts_with(releases[k].0@, "nightly"@)
                && releases[k].1@ != self_version && forall|j: int|
                0 <= j < k ==> !(starts_with((#[trigger] releases[j]).0@, "nightly"@)
                    && releases[j].1@ != self_version),
            None => forall|j: int|
                0 <= j < releases.len() ==> !(starts_with((#[trigger] releases[j]).0@, "nightly"@)
                    && releases[j].1@ != self_version),
        },
        (!target_nightly && semver_parses(self_version)) ==> match first_wanted(
            releases,
            self_version,
            false,
            0,
        ) {
            Some(k) => 0 <= k < releases.len() && !starts_with(releases[k].0@, "nightly"@)
                && semver_parses(trim_start_char(releases[k].0@, 'v')) && semver_gt(
                trim_start_char(releases[k].0@, 'v'),
                self_version,
            ) && forall|j: int|
                0 <= j < k ==> !(!starts_with((#[trigger] releases[j]).0@, "nightly"@)
                    && semver_parses(trim_start_char(releases[j].0@, 'v')) && semver_gt(
                    trim_start_char(releases[j].0@, 'v'),
                    self_version,
                )),
            None => forall|j: int|
                0 <= j < releases.len() ==> !(!starts_with((#[trigger] releases[j]).0@, "nightly"@)
                    && semver_parses(trim_start_char(releases[j].0@, 'v')) && semver_gt(
                    trim_start_char(releases[j].0@, 'v'),
                    self_version,
                )),
        },
{
    lemma_first_wanted_from(releases, self_version, target_nightly, 0);
}

fn release_is_update(tag: &str, name: &str, self_version: &str, target_nightly: bool) -> (b: bool)
    ensures
        b == release_wanted(tag@, name@, self_version@, target_nightly),
{
    let nightly = chars_of("nightly");
    if target_nightly {
        return has_prefix(&chars_of(tag), &nightly) && !seq_eq(
            &chars_of(name),
            &chars_of(self_version),
        );
    }
    let v = string_of(&trim_start_chars(&chars_of(tag), 'v'));
    if !version_parses(self_version) {
        return has_prefix(&chars_of(self_version), &nightly);
    }
    if !version_parses(v.as_str()) {
        return false;
    }
    !has_prefix(&chars_of(tag), &nightly) && version_newer(v.as_str(), self_version)
}

/// The release to update to: the first of `releases` (tag and name, as the
/// forge lists them) that is an update for the running build
/// `self_version` on the target channel.
pub fn pick_update(releases: &Vec<(String, String)>, self_version: &str, target_nightly: bool) -> (r:
    Option<usize>)
    ensures
        match r {
            Some(i) => first_wanted(releases@, self_version@, target_nightly, 0) == Some(i as int),
            None => first_wanted(releases@, self_version@, target_nightly, 0) is None,
        },
{
    let mut i: usize = 0;
    while i < releases.len()
        invariant
            i <= releases@.len(),
            first_wanted(releases@, self_version@, target_nightly, i as int) == first_wanted(
                releases@,
                self_version@,
                target_nightly,
                0,
            ),
        decreases releases.len() - i,
    {
        if release_is_update(
            releases[i].0.as_str(),
            releases[i].1.as_str(),
            self_version,
            target_nightly,
        ) {
            return Some(i);
        }
        i = i + 1;
    }
    None
}

/// Whether the answer to "Update to ...? [y/N]" agrees: trimmed and
/// lowercased, it starts with `y`.
pub fn accepts_update(input: &str) -> (b: bool)
    ensures
        b == starts_with(lowercase(trim(input@)), "y"@),
{
    let l = lower_chars(&trim_chars(&chars_of(input)));
    has_prefix(&l, &chars_of("y"))
}

/// Whether an asset name is the binary for `arch`: it names the
/// architecture and is neither an archive nor a checksum.
pub open spec fn is_self_asset(name: Seq<char>, arch: Seq<char>) -> bool {
    contains_seq(name, arch) && !contains_seq(name, "tar"@) && !contains_seq(name, "sum"@)
}

/// The index of the first asset name, at or after `i`, that is the binary
/// for `arch`.
pub open spec fn first_self_asset(names: Seq<String>, arch: Seq<char>, i: int) -> Option<int>
    decreases names.len() - i,
{
    if i < 0 || i >= names.len() {
        None
    } else if is_self_asset(names[i]@, arch) {
        Some(i)
    } else {
        first_self_asset(names, arch, i + 1)
    }
}

/// The asset of a release to update with: the first whose name names the
/// architecture and is neither an archive nor a checksum.
pub fn pick_self_asset(names: &Vec<String>, arch: &str) -> (r: Option<usize>)
    ensures
        match r {
            Some(i) => first_self_asset(names@, arch@, 0) == Some(i as int),
            None => first_self_asset(names@, arch@, 0) is None,
        },
{
    let a = chars_of(arch);
    let tar = chars_of("tar");
    let sum = chars_of("sum");
    proof {
        reveal_strlit("tar");
        reveal_strlit("sum");
    }
    let mut i: usize = 0;
    while i < names.len()
        invariant
            i <= names@.len(),
            a@ == arch@,
            tar@ == "tar"@,
            sum@ == "sum"@,
            first_self_asset(names@, arch@, i as int) == first_self_asset(names@, arch@, 0),
        decreases names.len() - i,
    {
        let n = chars_of(names[i].as_str());
        if contains(&n, &a) && !contains(&n, &tar) && !contains(&n, &sum) {
            return Some(i);
        }
        i = i + 1;
    }
    None
}

/// The index of the first asset, at or after `i`, named `name`.
pub open spec fn first_named(names: Seq<String>, name: Seq<char>, i: int) -> Option<int>
    decreases names.len() - i,
{
    if i < 0 || i >= names.len() {
        None
    } else if names[i]@ == name {
        Some(i)
    } else {
        first_named(names, name, i + 1)
    }
}

/// The checksum published for the asset `asset`: the first asset named as
/// it is with `.b3sum` after.
pub fn pick_checksum_asset(names: &Vec<String>, asset: &str) -> (r: Option<usize>)
    ensures
        match r {
            Some(i) => first_named(names@, asset@ + ".b3sum"@, 0) == Some(i as int),
            None => first_named(names@, asset@ + ".b3sum"@, 0) is None,
        },
{
    let want = concat(&chars_of(asset), &chars_of(".b3sum"));
    let mut i: usize = 0;
    while i < names.len()
        invariant
            i <= names@.len(),
            want@ == asset@ + ".b3sum"@,
            first_named(names@, want@, i as int) == first_named(names@, want@, 0),
        decreases names.len() - i,
    {
        if seq_eq(&chars_of(names[i].as_str()), &want) {
            return Some(i);
        }
        i = i + 1;
    }
    None
}

/// The digest in a published `.b3sum` file: its first whitespace-separated
/// word (the file reads `<hex>  <filename>`).
pub fn checksum_token(body: &str) -> (r: Option<String>)
    ensures
        match r {
            Some(t) => first_word(body@) == Some(t@),
            None => first_word(body@) is None,
        },
{
    let s = chars_of(body);
    match first_word_bounds(&s) {
        Some((a, b)) => Some(string_of(&slice_chars(&s, a, b))),
        None => None,
    }
}


// ─── listing installed packages ─────────────────────────────────────────

/// The key that tells installed packages apart:
/// `repo-pkg_id-family-name`, a missing id or family left empty.
pub open spec fn spec_package_key(
    repo: Seq<char>,
    pkg_id: Option<Seq<char>>,
    family: Option<Seq<char>>,
    name: Seq<char>,
) -> Seq<char> {
    let id = match pkg_id {
        Some(i) => i,
        None => Seq::empty(),
    };
    let fam = match family {
        Some(f) => f,
        None => Seq::empty(),
    };
    repo + "-"@ + id + "-"@ + fam + "-"@ + name
}

/// The key that tells installed packages apart.
pub fn package_key(repo: &str, pkg_id: Option<&str>, family: Option<&str>, name: &str) -> (r: String)
    ensures
        r@ == spec_package_key(
            repo@,
            match pkg_id {
                Some(i) => Some(i@),
                None => None,
            },
            match family {
                Some(f) => Some(f@),
                None => None,
            },
            name@,
        ),
{
    let dash = chars_of("-");
    let id = match pkg_id {
        Some(i) => chars_of(i),
        None => Vec::new(),
    };
    let fam = match family {
        Some(f) => chars_of(f),
        None => Vec::new(),
    };
    let mut r = concat(&chars_of(repo), &dash);
    r = concat(&r, &id);
    r = concat(&r, &dash);
    r = concat(&r, &fam);
    r = concat(&r, &dash);
    r = concat(&r, &chars_of(name));
    string_of(&r)
}

/// Whether a healthy entry among `es` has the key `k`.
pub open spec fn key_seen(es: Seq<(bool, u64, String)>, k: Seq<char>) -> bool {
    exists|j: int| 0 <= j < es.len() && #[trigger] es[j].0 && es[j].2@ == k
}

/// The summary of installed entries (healthy, size on disk, key): how many
/// are healthy, how many distinct keys the healthy ones have, how many are
/// broken, and the sizes of the healthy and of the broken ones.
pub open spec fn spec_summary(es: Seq<(bool, u64, String)>) -> (nat, nat, nat, nat, nat)
    decreases es.len(),
{
    if es.len() == 0 {
        (0, 0, 0, 0, 0)
    } else {
        let p = spec_summary(es.drop_last());
        let e = es.last();
        if e.0 {
            (
                p.0 + 1,
                if key_seen(es.drop_last(), e.2@) {
                    p.1
                } else {
                    p.1 + 1
                },
                p.2,
                p.3 + e.1 as nat,
                p.4,
            )
        } else {
            (p.0, p.1, p.2 + 1, p.3, p.4 + e.1 as nat)
        }
    }
}

/// Every entry is healthy or broken, and no more keys are distinct than
/// entries are healthy.
pub proof fn lemma_summary_counts(es: Seq<(bool, u64, String)>)
    ensures
        spec_summary(es).0 + spec_summary(es).2 == es.len(),
        spec_summary(es).1 <= spec_summary(es).0,
    decreases es.len(),
{
    if es.len() > 0 {
        lemma_summary_counts(es.drop_last());
    }
}

proof fn lemma_summary_sizes_grow(es: Seq<(bool, u64, String)>, i: int)
    requires
        0 <= i <= es.len(),
    ensures
        spec_summary(es.subrange(0, i)).3 + spec_summary(es.subrange(0, i)).4 <= spec_summary(es).3
            + spec_summary(es).4,
    decreases es.len() - i,
{
    if i < es.len() {
        lemma_summary_sizes_grow(es, i + 1);
        assert(es.subrange(0, i + 1).drop_last() =~= es.subrange(0, i));
    } else {
        assert(es.subrange(0, i) =~= es);
    }
}

fn seen_before(es: &Vec<(bool, u64, String)>, i: usize, k: &str) -> (b: bool)
    requires
        i <= es@.len(),
    ensures
        b == key_seen(es@.subrange(0, i as int), k@),
{
    let kc = chars_of(k);
    let mut j: usize = 0;
    while j < i
        invariant
            i <= es@.len(),
            j <= i,
            kc@ == k@,
            forall|m: int| 0 <= m < j ==> !(es@[m].0 && es@[m].2@ == k@),
        decreases i - j,
    {
        if es[j].0 && seq_eq(&chars_of(es[j].2.as_str()), &kc) {
            assert(es@.subrange(0, i as int)[j as int] == es@[j as int]);
            return true;
        }
        j = j + 1;
    }
    assert forall|m: int| 0 <= m < i implies !(#[trigger] es@.subrange(0, i as int)[m].0
        && es@.subrange(0, i as int)[m].2@ == k@) by {
        assert(es@.subrange(0, i as int)[m] == es@[m]);
    }
    false
}

/// Sum up the installed entries (healthy, size on disk, key): the healthy
/// count, the number of distinct keys among the healthy, the broken count,
/// and the healthy and broken sizes. The sizes all told fit in a `u64`.
pub fn installed_summary(entries: &Vec<(bool, u64, String)>) -> (r: (usize, usize, usize, u64, u64))
    requires
        spec_summary(entries@).3 + spec_summary(entries@).4 <= u64::MAX,
    ensures
        r.0 == spec_summary(entries@).0,
        r.1 == spec_summary(entries@).1,
        r.2 == spec_summary(entries@).2,
        r.3 == spec_summary(entries@).3,
        r.4 == spec_summary(entries@).4,
{
    let ghost es = entries@;
    let mut installed: usize = 0;
    let mut unique: usize = 0;
    let mut broken: usize = 0;
    let mut installed_size: u64 = 0;
    let mut broken_size: u64 = 0;
    let mut i: usize = 0;
    while i < entries.len()
        invariant
            es == entries@,
            i <= es.len(),
            spec_summary(es).3 + spec_summary(es).4 <= u64::MAX,
            installed == spec_summary(es.subrange(0, i as int)).0,
            unique == spec_summary(es.subrange(0, i as int)).1,
            broken == spec_summary(es.subrange(0, i as int)).2,
            installed_size == spec_summary(es.subrange(0, i as int)).3,
            broken_size == spec_summary(es.subrange(0, i as int)).4,
        decreases es.len() - i,
    {
        let ghost pre = es.subrange(0, i as int);
        let ghost next = es.subrange(0, i as int + 1);
        proof {
            assert(next.drop_last() =~= pre);
            assert(next.last() == es[i as int]);
            lemma_summary_counts(pre);
            lemma_summary_sizes_grow(es, i as int + 1);
        }
        let size = entries[i].1;
        if entries[i].0 {
            if !seen_before(entries, i, entries[i].2.as_str()) {
                unique = unique + 1;
            }
            installed = installed + 1;
            installed_size = installed_size + size;
        } else {
            broken = broken + 1;
            broken_size = broken_size + size;
        }
        i = i + 1;
    }
    assert(es.subrange(0, es.len() as int) =~= es);
    (installed, unique, broken, installed_size, broken_size)
}

// ─── inspecting a build ─────────────────────────────────────────────────

/// `s` with the first `pat` in it, if any, replaced by `rep`.
pub open spec fn replace_first(s: Seq<char>, pat: Seq<char>, rep: Seq<char>) -> Seq<char> {
    match first_occurrence(s, pat, 0) {
        Some(i) => s.subrange(0, i) + rep + s.subrange(i + pat.len(), s.len() as int),
        None => s,
    }
}

fn replace_first_chars(s: &Vec<char>, pat: &Vec<char>, rep: &Vec<char>) -> (r: Vec<char>)
    ensures
        r@ == replace_first(s@, pat@, rep@),
{
    match find_seq_from(s, pat, 0) {
        Some(i) => {
            proof {
                lemma_first_occurrence(s@, pat@, 0);
                assert(s@.len() == s.len() && pat@.len() == pat.len());
            }
            let head = concat(&slice_chars(s, 0, i), rep);
            concat(&head, &slice_chars(s, i + pat.len(), s.len()))
        },
        None => s.clone(),
    }
}

/// Where a build log or script on GitHub is read raw: a `/tree/` and then
/// a `/blob/` in a `https://github.com` URL each become
/// `/raw/refs/heads/`, the first of each only; other URLs stay as they are.
pub open spec fn spec_raw_log_url(url: Seq<char>) -> Seq<char> {
    if starts_with(url, "https://github.com"@) {
        replace_first(
            replace_first(url, "/tree/"@, "/raw/refs/heads/"@),
            "/blob/"@,
            "/raw/refs/heads/"@,
        )
    } else {
        url
    }
}

/// The URL to fetch a build log or script from.
pub fn raw_log_url(url: &str) -> (r: String)
    ensures
        r@ == spec_raw_log_url(url@),
{
    let u = chars_of(url);
    if !has_prefix(&u, &chars_of("https://github.com")) {
        return string_of(&u);
    }
    let raw = chars_of("/raw/refs/heads/");
    let once = replace_first_chars(&u, &chars_of("/tree/"), &raw);
    string_of(&replace_first_chars(&once, &chars_of("/blob/"), &raw))
}

/// The file an installed package keeps what `inspect` shows in: its
/// build log `<name>.log`, or its build script `SBUILD`.
pub fn inspect_file_name(pkg_name: &str, inspect_type: &InspectType) -> (r: String)
    ensures
        r@ == match inspect_type {
            InspectType::BuildLog => pkg_name@ + ".log"@,
            InspectType::BuildScript => "SBUILD"@,
        },
{
    match inspect_type {
        InspectType::BuildLog => string_of(&concat(&chars_of(pkg_name), &chars_of(".log"))),
        InspectType::BuildScript => string_of(&chars_of("SBUILD")),
    }
}

/// The length a response announces in its `Content-Length` header: the
/// header's value read as a `u64`, 0 where it is missing or is no number.
pub fn content_length(header: Option<&str>) -> (n: u64)
    ensures
        n == match header {
            Some(h) => match spec_parse_u64(h@) {
                Some(v) => v,
                None => 0,
            },
            None => 0,
        },
{
    match header {
        Some(h) => match parse_u64(h) {
            Some(v) => v,
            None => 0,
        },
        None => 0,
    }
}

/// Whether a fetched build log or script is too large to show without
/// asking: over 1 MiB.
pub fn too_large(len: u64) -> (b: bool)
    ensures
        b == (len > 1048576),
{
    len > 1048576
}

/// A build log or script as shown: each carriage return made a newline.
pub fn log_text(content: &str) -> (r: String)
    ensures
        r@ == replace_all(content@, "\r"@, "\n"@),
{
    proof {
        reveal_strlit("\r");
    }
    string_of(&replace_chars(&chars_of(content), &chars_of("\r"), &chars_of("\n")))
}

} // verus!
