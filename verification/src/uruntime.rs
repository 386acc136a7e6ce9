//! Patch the uruntime binary: its ELF sections carry the build's `upd_info`
//! and environment variables, and its mount-mode marker can be rewritten.

use vstd::prelude::*;

use crate::config::Config;
use crate::text::opt_chars;
use crate::elf::{spec_write_section, reports, write_section, WriteFailure};
use crate::error::Error;
use crate::text::{
    chars_of, concat, join, join_chars, replace_all, replace_chars, rows_of, string_of, texts,
};
use crate::util::{join_path, path_join, process_unique_path, spec_unique_path};
use vstd::string::StringSliceAdditionalSpecFns;
use vstd::utf8::encode_utf8;

verus! {

/// `URUNTIME_MOUNT=`, the marker uruntime ships in `.rodata` to advertise
/// its mount mode.
pub open spec fn mount_marker() -> Seq<u8> {
    seq![
        0x55u8, 0x52u8, 0x55u8, 0x4eu8, 0x54u8, 0x49u8, 0x4du8, 0x45u8, 0x5fu8, 0x4du8, 0x4fu8,
        0x55u8, 0x4eu8, 0x54u8, 0x3du8,
    ]
}

fn marker() -> (v: Vec<u8>)
    ensures
        v@ == mount_marker(),
{
    let v: Vec<u8> = vec![
        0x55u8, 0x52u8, 0x55u8, 0x4eu8, 0x54u8, 0x49u8, 0x4du8, 0x45u8, 0x5fu8, 0x4du8, 0x4fu8,
        0x55u8, 0x4eu8, 0x54u8, 0x3du8,
    ];
    assert(v@ =~= mount_marker());
    v
}

/// `n` occurs in `h` at `p`.
pub open spec fn bytes_at(h: Seq<u8>, n: Seq<u8>, p: int) -> bool {
    0 <= p && p + n.len() <= h.len() && h.subrange(p, p + n.len()) == n
}

/// The first position at or after `i` where `n` occurs in `h`.
pub open spec fn find_bytes_from(h: Seq<u8>, n: Seq<u8>, i: int) -> Option<int>
    decreases h.len() + 1 - i,
{
    if i < 0 || i + n.len() > h.len() {
        None
    } else if bytes_at(h, n, i) {
        Some(i)
    } else {
        find_bytes_from(h, n, i + 1)
    }
}

/// An ASCII digit byte.
pub open spec fn is_digit_byte(b: u8) -> bool {
    0x30 <= b && b <= 0x39
}

/// What rewriting the marker digits of `d` from `start` on gives: the image
/// and how many digits were rewritten. Each occurrence of the marker that is
/// followed by a digit has that digit replaced by `0`.
pub open spec fn patch_from(d: Seq<u8>, start: int) -> (Seq<u8>, nat)
    decreases d.len() + 1 - start,
{
    match find_bytes_from(d, mount_marker(), start) {
        None => (d, 0),
        Some(p) => {
            let k = p + 15;
            if start < k <= d.len() {
                if k < d.len() && is_digit_byte(d[k]) {
                    let r = patch_from(d.update(k, 0x30u8), k);
                    (r.0, r.1 + 1)
                } else {
                    patch_from(d, k)
                }
            } else {
                (d, 0)
            }
        },
    }
}

proof fn lemma_find_bytes_from(h: Seq<u8>, n: Seq<u8>, i: int)
    ensures
        find_bytes_from(h, n, i) matches Some(p) ==> i <= p && bytes_at(h, n, p),
    decreases h.len() + 1 - i,
{
    if !(i < 0 || i + n.len() > h.len()) && !bytes_at(h, n, i) {
        lemma_find_bytes_from(h, n, i + 1);
    }
}

proof fn lemma_find_agree(h: Seq<u8>, g: Seq<u8>, n: Seq<u8>, i: int, j: int)
    requires
        find_bytes_from(h, n, i) == Some(j),
        h.len() == g.len(),
        forall|x: int| i <= x < j + n.len() ==> h[x] == g[x],
    ensures
        find_bytes_from(g, n, i) == Some(j),
    decreases h.len() + 1 - i,
{
    lemma_find_bytes_from(h, n, i);
    if bytes_at(h, n, i) {
        assert(h.subrange(i, i + n.len()) =~= g.subrange(i, i + n.len()));
    } else {
        if i == j {
            assert(bytes_at(h, n, i));
        }
        assert(!bytes_at(g, n, i)) by {
            if bytes_at(g, n, i) {
                assert(h.subrange(i, i + n.len()) =~= g.subrange(i, i + n.len())) by {
                    assert forall|x: int| i <= x < i + n.len() implies h[x] == g[x] by {
                        lemma_find_bytes_from(h, n, i + 1);
                    }
                }
            }
        }
        lemma_find_agree(h, g, n, i + 1, j);
    }
}

proof fn lemma_patch_frame(d: Seq<u8>, s: int)
    requires
        0 <= s,
    ensures
        patch_from(d, s).0.len() == d.len(),
        forall|x: int| 0 <= x < s + 15 && x < d.len() ==> patch_from(d, s).0[x] == d[x],
    decreases d.len() + 1 - s,
{
    lemma_find_bytes_from(d, mount_marker(), s);
    assert(mount_marker().len() == 15);
    match find_bytes_from(d, mount_marker(), s) {
        None => {},
        Some(p) => {
            let k = p + 15;
            assert(s <= p && p + 15 <= d.len());
            if k < d.len() && is_digit_byte(d[k]) {
                let d1 = d.update(k, 0x30u8);
                lemma_patch_frame(d1, k);
                assert(patch_from(d, s).0 == patch_from(d1, k).0);
                assert forall|x: int| 0 <= x < s + 15 && x < d.len() implies patch_from(d, s).0[x]
                    == d[x] by {
                    assert(d1[x] == d[x]);
                }
            } else {
                lemma_patch_frame(d, k);
                assert(patch_from(d, s) == patch_from(d, k));
            }
        },
    }
}

proof fn lemma_patch_twice(d: Seq<u8>, s: int)
    requires
        0 <= s,
    ensures
        patch_from(patch_from(d, s).0, s) == patch_from(d, s),
    decreases d.len() + 1 - s,
{
    let m = mount_marker();
    lemma_find_bytes_from(d, m, s);
    assert(m.len() == 15);
    match find_bytes_from(d, m, s) {
        None => {},
        Some(p) => {
            let k = p + 15;
            if k < d.len() && is_digit_byte(d[k]) {
                let d1 = d.update(k, 0x30u8);
                let r = patch_from(d1, k);
                lemma_patch_frame(d1, k);
                assert(r.0[k] == d1[k]);
                assert forall|x: int| s <= x < p + m.len() implies d[x] == r.0[x] by {
                    assert(r.0[x] == d1[x]);
                }
                lemma_find_agree(d, r.0, m, s, p);
                assert(r.0[k] == 0x30u8);
                assert(r.0.update(k, 0x30u8) =~= r.0);
                lemma_patch_twice(d1, k);
            } else {
                let r = patch_from(d, k);
                lemma_patch_frame(d, k);
                assert forall|x: int| s <= x < p + m.len() implies d[x] == r.0[x] by {}
                lemma_find_agree(d, r.0, m, s, p);
                if k < d.len() {
                    assert(r.0[k] == d[k]);
                }
                lemma_patch_twice(d, k);
            }
        },
    }
}

/// Position `x` of `d` holds a digit right after a mount marker.
pub open spec fn mount_digit_at(d: Seq<u8>, x: int) -> bool {
    15 <= x < d.len() && bytes_at(d, mount_marker(), x - 15) && is_digit_byte(d[x])
}

proof fn lemma_find_none_or_first(h: Seq<u8>, n: Seq<u8>, i: int, q: int)
    requires
        0 <= i <= q,
        bytes_at(h, n, q),
    ensures
        find_bytes_from(h, n, i) matches Some(p) && p <= q,
    decreases q - i,
{
    if !bytes_at(h, n, i) {
        lemma_find_none_or_first(h, n, i + 1, q);
    }
}

/// Two mount markers never overlap: no proper suffix of the marker begins
/// it again.
proof fn lemma_markers_apart(d: Seq<u8>, p: int, q: int)
    requires
        bytes_at(d, mount_marker(), p),
        p < q < p + 15,
    ensures
        !bytes_at(d, mount_marker(), q),
{
    let m = mount_marker();
    if bytes_at(d, m, q) {
        assert(d.subrange(p, p + 15)[q - p] == m[q - p]);
        assert(d.subrange(q, q + 15)[0] == m[0]);
        if q + 1 < p + 15 {
            assert(d.subrange(p, p + 15)[q - p + 1] == m[q - p + 1]);
            assert(d.subrange(q, q + 15)[1] == m[1]);
        }
        assert(false);
    }
}

proof fn lemma_patch_direct(d: Seq<u8>, s: int)
    requires
        0 <= s,
    ensures
        patch_from(d, s).0.len() == d.len(),
        forall|x: int|
            0 <= x < d.len() ==> #[trigger] patch_from(d, s).0[x] == if x >= s + 15 && mount_digit_at(
                d,
                x,
            ) {
                0x30u8
            } else {
                d[x]
            },
        patch_from(d, s).1 > 0 <==> exists|x: int| x >= s + 15 && #[trigger] mount_digit_at(d, x),
    decreases d.len() + 1 - s,
{
    let m = mount_marker();
    assert(m.len() == 15);
    lemma_find_bytes_from(d, m, s);
    lemma_patch_frame(d, s);
    match find_bytes_from(d, m, s) {
        None => {
            assert forall|x: int| x >= s + 15 implies !#[trigger] mount_digit_at(d, x) by {
                if mount_digit_at(d, x) {
                    lemma_find_none_or_first(d, m, s, x - 15);
                }
            }
        },
        Some(p) => {
            let k = p + 15;
            assert forall|x: int| s + 15 <= x < k + 15 && x != k implies !#[trigger] mount_digit_at(
                d,
                x,
            ) by {
                if mount_digit_at(d, x) {
                    if x < k {
                        lemma_find_none_or_first(d, m, s, x - 15);
                    } else {
                        lemma_markers_apart(d, p, x - 15);
                    }
                }
            }
            if k < d.len() && is_digit_byte(d[k]) {
                let d1 = d.update(k, 0x30u8);
                lemma_patch_direct(d1, k);
                assert(mount_digit_at(d, k));
                assert forall|x: int| x >= k + 15 implies #[trigger] mount_digit_at(d1, x)
                    == mount_digit_at(d, x) by {
                    if x < d.len() {
                        assert(d1[x] == d[x]);
                        if x - 15 > k {
                            assert(d1.subrange(x - 15, x) =~= d.subrange(x - 15, x));
                        } else {
                            assert(d1.subrange(x - 15, x)[0] == d1[k]);
                            assert(d.subrange(x - 15, x)[0] == d[k]);
                            assert(m[0] == 0x55u8);
                        }
                    }
                }
            } else {
                lemma_patch_direct(d, k);
                assert(patch_from(d, s) == patch_from(d, k));
                assert forall|x: int| s + 15 <= x < k + 15 implies !#[trigger] mount_digit_at(d, x)
                    by {
                    if x == k && mount_digit_at(d, x) {
                        assert(is_digit_byte(d[k]));
                    }
                }
            }
        },
    }
}

/// Patching the mount marker rewrites exactly the digits that follow a
/// `URUNTIME_MOUNT=` marker to `0` and leaves every other byte as it was;
/// it finds something to patch exactly where such a digit exists.
pub proof fn lemma_patch_rewrites_mount_digits(d: Seq<u8>)
    ensures
        patch_from(d, 0).0 == Seq::new(
            d.len(),
            |x: int|
                if mount_digit_at(d, x) {
                    0x30u8
                } else {
                    d[x]
                },
        ),
        patch_from(d, 0).1 > 0 <==> exists|x: int| #[trigger] mount_digit_at(d, x),
{
    lemma_patch_direct(d, 0);
    assert forall|x: int| #[trigger] mount_digit_at(d, x) implies x >= 15 by {}
    assert(patch_from(d, 0).0 =~= Seq::new(
        d.len(),
        |x: int|
            if mount_digit_at(d, x) {
                0x30u8
            } else {
                d[x]
            },
    ));
}

/// Patching the mount marker twice is patching it once: the second pass
/// finds the same markers, rewrites nothing more, and counts as many
/// digits, so it succeeds exactly where the first did.
pub proof fn lemma_keep_mount_idempotent(d: Seq<u8>)
    ensures
        patch_from(patch_from(d, 0).0, 0) == patch_from(d, 0),
{
    lemma_patch_twice(d, 0);
}

/// Whether `n` occurs in `h` at `p`.
fn bytes_match_at(h: &[u8], n: &[u8], p: usize) -> (r: bool)
    ensures
        r == bytes_at(h@, n@, p as int),
{
    if p > h.len() || n.len() > h.len() - p {
        return false;
    }
    let mut k: usize = 0;
    while k < n.len()
        invariant
            p + n@.len() <= h@.len(),
            h@.len() == h.len(),
            k <= n@.len(),
            forall|m: int| 0 <= m < k ==> h@[p + m] == n@[m],
        decreases n.len() - k,
    {
        if h[p + k] != n[k] {
            assert(h@.subrange(p as int, p + n@.len())[k as int] != n@[k as int]);
            return false;
        }
        k = k + 1;
    }
    assert(h@.subrange(p as int, p + n@.len()) =~= n@);
    true
}

/// The first position at or after `start` where `needle` occurs in
/// `haystack`.
pub fn find_subslice(haystack: &[u8], needle: &[u8], start: usize) -> (r: Option<usize>)
    ensures
        match r {
            Some(p) => find_bytes_from(haystack@, needle@, start as int) == Some(p as int),
            None => find_bytes_from(haystack@, needle@, start as int) is None,
        },
{
    let mut i = start;
    while i <= haystack.len() && needle.len() <= haystack.len() - i
        invariant
            start <= i,
            haystack@.len() == haystack.len(),
            find_bytes_from(haystack@, needle@, i as int) == find_bytes_from(
                haystack@,
                needle@,
                start as int,
            ),
        decreases haystack.len() + 1 - i,
    {
        if bytes_match_at(haystack, needle, i) {
            return Some(i);
        }
        assert(needle@.len() > 0) by {
            if needle@.len() == 0 {
                assert(haystack@.subrange(i as int, i as int) =~= needle@);
            }
        }
        i = i + 1;
    }
    None
}

/// Rewrite every `URUNTIME_MOUNT=<digit>` occurrence in the runtime to
/// `URUNTIME_MOUNT=0` (keep-mount). The rewrite is byte-for-byte, so no ELF
/// reflow is needed. Fails, leaving the runtime as it was, when no occurrence
/// is followed by a digit: silently leaving it unmodified would mask a
/// version mismatch.
pub fn patch_keep_mount(data: &mut [u8]) -> (r: Result<(), Error>)
    ensures
        patch_from(old(data)@, 0).1 > 0 ==> r is Ok && final(data)@ == patch_from(old(data)@, 0).0,
        patch_from(old(data)@, 0).1 == 0 ==> (r matches Err(Error::Config(m)) && m@
            == no_marker_message() && final(data)@ == old(data)@),
{
    let m = marker();
    let ghost d0 = data@;
    let mut patched: usize = 0;
    let mut start: usize = 0;
    loop
        invariant
            m@ == mount_marker(),
            d0 == old(data)@,
            data@.len() == d0.len(),
            patched <= start <= data@.len(),
            patched == 0 ==> data@ == d0,
            patch_from(d0, 0).0 == patch_from(data@, start as int).0,
            patch_from(d0, 0).1 == patch_from(data@, start as int).1 + patched,
        decreases data@.len() + 1 - start,
    {
        let pos = match find_subslice(data, &m, start) {
            Some(p) => p,
            None => {
                return finish(patched);
            },
        };
        proof {
            lemma_find_bytes_from(data@, mount_marker(), start as int);
            assert(mount_marker().len() == 15);
        }
        let n = data.len();
        assert(pos + 15 <= n);
        let digit_idx = pos + 15;
        if digit_idx < data.len() && 0x30 <= data[digit_idx] && data[digit_idx] <= 0x39 {
            data[digit_idx] = 0x30;
            patched = patched + 1;
        }
        start = digit_idx;
    }
}

/// The message of the error reported when no marker digit was found.
pub open spec fn no_marker_message() -> Seq<char> {
    "could not patch URUNTIME_MOUNT: marker not found in runtime\n  hint: this runtime build may not support URUNTIME_PRELOAD; try a newer uruntime release"@
}

fn finish(patched: usize) -> (r: Result<(), Error>)
    ensures
        patched > 0 ==> r is Ok,
        patched == 0 ==> (r matches Err(Error::Config(m)) && m@ == no_marker_message()),
{
    if patched == 0 {
        return Err(
            Error::Config(
                string_of(
                    &chars_of(
                        "could not patch URUNTIME_MOUNT: marker not found in runtime\n  hint: this runtime build may not support URUNTIME_PRELOAD; try a newer uruntime release",
                    ),
                ),
            ),
        );
    }
    Ok(())
}

/// The step of configuring the runtime that failed.
pub enum ConfigureFailure {
    /// Writing the update information into `.upd_info`.
    UpdateInfo(WriteFailure),
    /// Writing the environment variables into `.envs`.
    Envs(WriteFailure),
    /// No mount marker followed by a digit.
    Marker,
}

/// The image `d` after the update information, where given, is written into
/// `.upd_info`.
pub open spec fn with_update_info(d: Seq<u8>, upd: Option<Seq<char>>) -> Result<Seq<u8>, ConfigureFailure> {
    match upd {
        None => Ok(d),
        Some(u) => match spec_write_section(d, encode_utf8(".upd_info"@), encode_utf8(u)) {
            Ok(e) => Ok(e),
            Err(f) => Err(ConfigureFailure::UpdateInfo(f)),
        },
    }
}

/// The image `d` after the environment variables, where there are any, are
/// written into `.envs`, one per line.
pub open spec fn with_envs(d: Seq<u8>, envs: Seq<Seq<char>>) -> Result<Seq<u8>, ConfigureFailure> {
    if envs.len() == 0 {
        Ok(d)
    } else {
        match spec_write_section(d, encode_utf8(".envs"@), encode_utf8(join(envs, "\n"@))) {
            Ok(e) => Ok(e),
            Err(f) => Err(ConfigureFailure::Envs(f)),
        }
    }
}

/// The image `d` with its mount marker digits set to `0` where `keep` asks
/// for it.
pub open spec fn with_keep_mount(d: Seq<u8>, keep: bool) -> Result<Seq<u8>, ConfigureFailure> {
    if !keep {
        Ok(d)
    } else if patch_from(d, 0).1 > 0 {
        Ok(patch_from(d, 0).0)
    } else {
        Err(ConfigureFailure::Marker)
    }
}

/// What configuring the runtime image `d` gives: the update information,
/// then the environment variables, then the keep-mount patch, stopping at
/// the first step that fails.
pub open spec fn spec_configure(
    d: Seq<u8>,
    upd: Option<Seq<char>>,
    envs: Seq<Seq<char>>,
    keep: bool,
) -> Result<Seq<u8>, ConfigureFailure> {
    match with_update_info(d, upd) {
        Err(f) => Err(f),
        Ok(d1) => match with_envs(d1, envs) {
            Err(f) => Err(f),
            Ok(d2) => with_keep_mount(d2, keep),
        },
    }
}

/// Configure the runtime image `data`: write the update information into
/// its `.upd_info` section, the environment variables (one per line) into
/// its `.envs` section, and patch it to keep its mount point where asked.
/// On success `data` holds the configured runtime; on failure the error
/// names the step that failed and `data` is not to be used.
pub fn configure_runtime(
    data: &mut [u8],
    update_info: Option<&str>,
    env_vars: &[String],
    keep_mount: bool,
) -> (r: Result<(), Error>)
    ensures
        match spec_configure(
            old(data)@,
            match update_info {
                Some(u) => Some(u@),
                None => None,
            },
            texts(env_vars@),
            keep_mount,
        ) {
            Ok(d) => r is Ok && final(data)@ == d,
            Err(ConfigureFailure::UpdateInfo(f)) => r matches Err(e) && reports(e, f, ".upd_info"@),
            Err(ConfigureFailure::Envs(f)) => r matches Err(e) && reports(e, f, ".envs"@),
            Err(ConfigureFailure::Marker) => r matches Err(Error::Config(m)) && m@
                == no_marker_message(),
        },
{
    let ghost upd = match update_info {
        Some(u) => Some(u@),
        None => None,
    };
    if let Some(u) = update_info {
        let res = write_section(data, ".upd_info", u.as_bytes());
        if res.is_err() {
            return res;
        }
    }
    let ghost d1 = data@;
    assert(with_update_info(old(data)@, upd) == Ok::<Seq<u8>, ConfigureFailure>(d1));
    if env_vars.len() > 0 {
        let joined = string_of(&join_chars(&rows_of(env_vars), &chars_of("\n")));
        let res = write_section(data, ".envs", joined.as_str().as_bytes());
        if res.is_err() {
            return res;
        }
    }
    assert(with_envs(d1, texts(env_vars@)) == Ok::<Seq<u8>, ConfigureFailure>(data@));
    if keep_mount {
        return patch_keep_mount(data);
    }
    Ok(())
}

/// The uruntime download URL, `{arch}` standing for the architecture.
pub open spec fn default_runtime_url() -> Seq<char> {
    "https://github.com/pkgforge-dev/Anylinux-uruntime/releases/download/1.0.0/uruntime-appimage-lite-{arch}"@
}

/// Where the runtime is taken from.
#[derive(Debug)]
pub enum RuntimeSource {
    /// The binary the user named, used as it is.
    Given(String),
    /// A per-process working copy at `work` of the runtime cached at
    /// `cached`, which is fetched from `url` where missing.
    Download {
        /// Where the binary is cached.
        cached: String,
        /// Where it is downloaded from.
        url: String,
        /// The working copy that gets configured.
        work: String,
    },
}

/// Resolve the runtime: the user-provided path where it is set and the file
/// exists, else a cached download in the temp directory (its name carries the
/// architecture for cross-builds), copied to a working file unique to process
/// `pid` so concurrent builds do not clobber each other and the cache stays
/// pristine.
pub fn resolve_runtime(config: &Config, given_exists: bool, pid: u32) -> (r: RuntimeSource)
    ensures
        match config.runtime {
            Some(p) if given_exists => r matches RuntimeSource::Given(g) && g@ == p@,
            _ => r matches RuntimeSource::Download { cached, url, work } && cached@
                == path_join(config.tmpdir@, "uruntime-"@ + config.appimage_arch@) && url@
                == replace_all(
                match opt_chars(config.runtime_url) {
                    Some(u) => u,
                    None => default_runtime_url(),
                },
                "{arch}"@,
                config.appimage_arch@,
            ) && work@ == spec_unique_path(
                config.tmpdir@,
                "uruntime-"@ + config.appimage_arch@ + ".work"@,
                pid as nat,
            ),
        },
{
    if let Some(p) = &config.runtime {
        if given_exists {
            return RuntimeSource::Given(p.clone());
        }
    }
    let arch = chars_of(config.appimage_arch.as_str());
    let name = concat(&chars_of("uruntime-"), &arch);
    let cached = join_path(config.tmpdir.as_str(), string_of(&name).as_str());
    let template = match &config.runtime_url {
        Some(u) => chars_of(u.as_str()),
        None => chars_of(
            "https://github.com/pkgforge-dev/Anylinux-uruntime/releases/download/1.0.0/uruntime-appimage-lite-{arch}",
        ),
    };
    proof {
        reveal_strlit("{arch}");
    }
    let url = replace_chars(&template, &chars_of("{arch}"), &arch);
    let work_name = concat(&name, &chars_of(".work"));
    let work = process_unique_path(config.tmpdir.as_str(), string_of(&work_name).as_str(), pid);
    RuntimeSource::Download { cached, url: string_of(&url), work }
}

} // verus!
