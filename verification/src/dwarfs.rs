//! The decisions and command lines of the DWARFS image build: where
//! `mkdwarfs` comes from, what it is run with, and whether FUSE is usable.

use vstd::prelude::*;

use crate::config::Config;
use crate::text::opt_chars;
use crate::error::Error;
use crate::text::{
    chars_of, concat, has_prefix, replace_all, replace_chars, rows, split, split_chars, starts_with,
    string_of, texts, words, words_of,
};
use crate::util::{join_path, path_join};

verus! {

/// The `mkdwarfs` download URL, `{arch}` standing for the architecture.
pub open spec fn default_dwarfs_url() -> Seq<char> {
    "https://github.com/mhx/dwarfs/releases/download/v0.15.6/dwarfs-universal-0.15.6-Linux-{arch}"@
}

/// Where `mkdwarfs` is taken from.
#[derive(Debug)]
pub enum MkdwarfsSource {
    /// The binary the user named.
    Given(String),
    /// The binary found on `PATH`.
    OnPath(String),
    /// The cached download at `cached`, fetched from `url` where missing.
    Download {
        /// Where the binary is cached.
        cached: String,
        /// Where it is downloaded from.
        url: String,
    },
}

/// Resolve the mkdwarfs binary: the user-provided path, which must exist,
/// else the one on `PATH`, else a download into the temp directory.
pub fn resolve_mkdwarfs(config: &Config, given_exists: bool, on_path: Option<String>) -> (r: Result<
    MkdwarfsSource,
    Error,
>)
    ensures
        match config.mkdwarfs {
            Some(p) => if given_exists {
                r matches Ok(MkdwarfsSource::Given(g)) && g@ == p@
            } else {
                r matches Err(Error::Io(m)) && m@ == "mkdwarfs not found at "@ + p@
            },
            None => match on_path {
                Some(q) => r matches Ok(MkdwarfsSource::OnPath(g)) && g@ == q@,
                None => r matches Ok(MkdwarfsSource::Download { cached, url }) && cached@
                    == path_join(config.tmpdir@, "mkdwarfs"@) && url@ == replace_all(
                    match opt_chars(config.dwarfs_url) {
                        Some(u) => u,
                        None => default_dwarfs_url(),
                    },
                    "{arch}"@,
                    config.appimage_arch@,
                ),
            },
        },
{
    if let Some(p) = &config.mkdwarfs {
        if given_exists {
            return Ok(MkdwarfsSource::Given(p.clone()));
        }
        let m = concat(&chars_of("mkdwarfs not found at "), &chars_of(p.as_str()));
        return Err(Error::Io(string_of(&m)));
    }
    if let Some(q) = on_path {
        return Ok(MkdwarfsSource::OnPath(q));
    }
    let template = match &config.dwarfs_url {
        Some(u) => chars_of(u.as_str()),
        None => chars_of(
            "https://github.com/mhx/dwarfs/releases/download/v0.15.6/dwarfs-universal-0.15.6-Linux-{arch}",
        ),
    };
    let pat = chars_of("{arch}");
    proof {
        reveal_strlit("{arch}");
    }
    let url = replace_chars(&template, &pat, &chars_of(config.appimage_arch.as_str()));
    Ok(
        MkdwarfsSource::Download {
            cached: join_path(config.tmpdir.as_str(), "mkdwarfs"),
            url: string_of(&url),
        },
    )
}

/// Verify FUSE is usable, given whether `/dev/fuse` exists: launching an
/// AppImage for profiling requires it.
pub fn check_fuse_available(dev_fuse_exists: bool) -> (r: Result<(), Error>)
    ensures
        dev_fuse_exists ==> r is Ok,
        !dev_fuse_exists ==> (r matches Err(Error::Config(m)) && m@ == no_fuse_message()),
{
    if !dev_fuse_exists {
        return Err(
            Error::Config(
                string_of(
                    &chars_of(
                        "FUSE is not available: /dev/fuse is missing\n  hint: OPTIMIZE_LAUNCH launches the AppImage to record a profile, which requires FUSE. Load the `fuse` kernel module, or run the container with `--device /dev/fuse --cap-add SYS_ADMIN`.",
                    ),
                ),
            ),
        );
    }
    Ok(())
}

/// The message reported when FUSE is missing.
pub open spec fn no_fuse_message() -> Seq<char> {
    "FUSE is not available: /dev/fuse is missing\n  hint: OPTIMIZE_LAUNCH launches the AppImage to record a profile, which requires FUSE. Load the `fuse` kernel module, or run the container with `--device /dev/fuse --cap-add SYS_ADMIN`."@
}

/// The arguments every image build starts with.
pub open spec fn base_args(appdir: Seq<char>, runtime: Seq<char>) -> Seq<Seq<char>> {
    seq![
        "--force"@, "--order=path"@, "--set-owner"@, "0"@, "--set-group"@, "0"@,
        "--no-history"@, "--no-create-timestamp"@, "--header"@, runtime, "--input"@, appdir,
    ]
}

/// The `mkdwarfs` arguments of the final image: the base arguments, the
/// hotness categorisation where a profile is present, the first word of the
/// compression options after `-C` and the other words as they are, then the
/// output.
pub open spec fn spec_build_args(
    appdir: Seq<char>,
    runtime: Seq<char>,
    output: Seq<char>,
    compression: Seq<char>,
    profile: Option<Seq<char>>,
) -> Seq<Seq<char>> {
    let ws = words(compression);
    base_args(appdir, runtime) + match profile {
        Some(p) => seq!["--categorize=hotness"@, "--hotness-list="@ + p],
        None => Seq::empty(),
    } + if ws.len() > 0 {
        seq!["-C"@, ws[0]] + ws.subrange(1, ws.len() as int)
    } else {
        Seq::empty()
    } + seq!["--output"@, output]
}

fn push_str(v: &mut Vec<String>, s: &str)
    ensures
        final(v)@.map_values(|x: String| x@) == old(v)@.map_values(|x: String| x@).push(s@),
{
    let ghost before = v@;
    v.push(string_of(&chars_of(s)));
    assert(v@.map_values(|x: String| x@) =~= before.map_values(|x: String| x@).push(s@));
}

fn base(appdir: &str, runtime: &str) -> (v: Vec<String>)
    ensures
        v@.map_values(|x: String| x@) == base_args(appdir@, runtime@),
{
    let mut v: Vec<String> = Vec::new();
    push_str(&mut v, "--force");
    push_str(&mut v, "--order=path");
    push_str(&mut v, "--set-owner");
    push_str(&mut v, "0");
    push_str(&mut v, "--set-group");
    push_str(&mut v, "0");
    push_str(&mut v, "--no-history");
    push_str(&mut v, "--no-create-timestamp");
    push_str(&mut v, "--header");
    push_str(&mut v, runtime);
    push_str(&mut v, "--input");
    push_str(&mut v, appdir);
    assert(v@.map_values(|x: String| x@) =~= base_args(appdir@, runtime@));
    v
}

/// The arguments `mkdwarfs` builds the final AppImage with; `profile` is
/// the hotness profile where one exists.
pub fn build_appimage_args(
    appdir: &str,
    runtime: &str,
    output: &str,
    compression: &str,
    profile: Option<&str>,
) -> (r: Vec<String>)
    ensures
        r@.map_values(|x: String| x@) == spec_build_args(
            appdir@,
            runtime@,
            output@,
            compression@,
            match profile {
                Some(p) => Some(p@),
                None => None,
            },
        ),
{
    let mut v = base(appdir, runtime);
    let ghost b = v@.map_values(|x: String| x@);
    let ghost pa: Seq<Seq<char>> = match profile {
        Some(p) => seq!["--categorize=hotness"@, "--hotness-list="@ + p@],
        None => Seq::empty(),
    };
    if let Some(p) = profile {
        push_str(&mut v, "--categorize=hotness");
        let h = concat(&chars_of("--hotness-list="), &chars_of(p));
        let ghost before = v@;
        v.push(string_of(&h));
        assert(v@.map_values(|x: String| x@) =~= before.map_values(|x: String| x@).push(h@));
    }
    assert(v@.map_values(|x: String| x@) =~= b + pa);
    let ws = words_of(&chars_of(compression));
    let ghost cw: Seq<Seq<char>> = if rows(ws@).len() > 0 {
        seq!["-C"@, rows(ws@)[0]] + rows(ws@).subrange(1, rows(ws@).len() as int)
    } else {
        Seq::empty()
    };
    if ws.len() > 0 {
        push_str(&mut v, "-C");
        let mut i: usize = 0;
        while i < ws.len()
            invariant
                i <= ws@.len(),
                ws@.len() > 0,
                v@.map_values(|x: String| x@) == b + pa + seq!["-C"@] + rows(ws@).subrange(
                    0,
                    i as int,
                ),
            decreases ws.len() - i,
        {
            let ghost before = v@;
            v.push(string_of(&ws[i]));
            assert(v@.map_values(|x: String| x@) =~= before.map_values(|x: String| x@).push(
                ws@[i as int]@,
            ));
            assert(rows(ws@).subrange(0, i + 1) =~= rows(ws@).subrange(0, i as int).push(
                ws@[i as int]@,
            ));
            i = i + 1;
        }
        assert(seq!["-C"@] + rows(ws@).subrange(0, ws@.len() as int) =~= cw);
    }
    assert(v@.map_values(|x: String| x@) =~= b + pa + cw);
    push_str(&mut v, "--output");
    push_str(&mut v, output);
    assert(v@.map_values(|x: String| x@) =~= spec_build_args(
        appdir@,
        runtime@,
        output@,
        compression@,
        match profile {
            Some(p) => Some(p@),
            None => None,
        },
    ));
    v
}

/// The arguments `mkdwarfs` builds the temporary profiling image with:
/// fast compression, no profile.
pub fn build_profile_args(appdir: &str, runtime: &str, output: &str) -> (r: Vec<String>)
    ensures
        r@.map_values(|x: String| x@) == base_args(appdir@, runtime@) + seq![
            "-C"@,
            "zstd:level=5"@,
            "-S19"@,
            "--output"@,
            output@,
        ],
{
    let mut v = base(appdir, runtime);
    let ghost b = v@.map_values(|x: String| x@);
    push_str(&mut v, "-C");
    push_str(&mut v, "zstd:level=5");
    push_str(&mut v, "-S19");
    push_str(&mut v, "--output");
    push_str(&mut v, output);
    assert(v@.map_values(|x: String| x@) =~= b + seq![
        "-C"@,
        "zstd:level=5"@,
        "-S19"@,
        "--output"@,
        output@,
    ]);
    v
}

/// The places `PATH` names for a program: each non-empty directory of
/// `path_var` (separated by `:`), in order, joined with `name`.
pub open spec fn spec_path_candidates(path_var: Seq<char>, name: Seq<char>) -> Seq<Seq<char>> {
    split(path_var, ':').filter(|d: Seq<char>| d.len() > 0).map_values(
        |d: Seq<char>| path_join(d, name),
    )
}

proof fn lemma_filter_push(ls: Seq<Seq<char>>, i: int)
    requires
        0 <= i < ls.len(),
    ensures
        ls.subrange(0, i + 1).filter(|d: Seq<char>| d.len() > 0) == if ls[i].len() > 0 {
            ls.subrange(0, i).filter(|d: Seq<char>| d.len() > 0).push(ls[i])
        } else {
            ls.subrange(0, i).filter(|d: Seq<char>| d.len() > 0)
        },
{
    reveal(Seq::filter);
    assert(ls.subrange(0, i + 1).drop_last() =~= ls.subrange(0, i));
}

/// The candidate paths of `name` along the search path `path_var`; the
/// caller takes the first that is an executable file.
pub fn path_candidates(path_var: &str, name: &str) -> (r: Vec<String>)
    ensures
        texts(r@) == spec_path_candidates(path_var@, name@),
{
    let dirs = split_chars(&chars_of(path_var), ':');
    let ghost ds = rows(dirs@);
    let mut r: Vec<String> = Vec::new();
    let mut i: usize = 0;
    while i < dirs.len()
        invariant
            i <= dirs@.len(),
            ds == rows(dirs@),
            ds == split(path_var@, ':'),
            texts(r@) == ds.subrange(0, i as int).filter(|d: Seq<char>| d.len() > 0).map_values(
                |d: Seq<char>| path_join(d, name@),
            ),
        decreases dirs.len() - i,
    {
        proof {
            lemma_filter_push(ds, i as int);
        }
        assert(ds[i as int] == dirs@[i as int]@);
        if dirs[i].len() > 0 {
            let ghost before = texts(r@);
            let p = join_path(string_of(&dirs[i]).as_str(), name);
            r.push(p);
            assert(texts(r@) =~= before.push(p@));
        }
        assert(texts(r@) =~= ds.subrange(0, i + 1).filter(|d: Seq<char>| d.len() > 0).map_values(
            |d: Seq<char>| path_join(d, name@),
        ));
        i = i + 1;
    }
    assert(ds.subrange(0, ds.len() as int) =~= ds);
    r
}

/// Whether a directory entry named `name` is an AppImage FUSE mount point
/// (`.mount_*`); the caller also checks that it is a directory, as the
/// runtime puts a `.pid` file of the same prefix beside each mount.
pub fn is_mount_name(name: &str) -> (b: bool)
    ensures
        b == starts_with(name@, ".mount_"@),
{
    has_prefix(&chars_of(name), &chars_of(".mount_"))
}

/// The mount points of `after` that are not among `before`: those the
/// profiling run created, and the only ones it unmounts.
pub fn new_mounts(before: &Vec<String>, after: &Vec<String>) -> (r: Vec<String>)
    ensures
        texts(r@) == texts(after@).filter(|m: Seq<char>| !texts(before@).contains(m)),
{
    let ghost bs = texts(before@);
    let ghost keep = |m: Seq<char>| !bs.contains(m);
    let mut r: Vec<String> = Vec::new();
    let mut i: usize = 0;
    while i < after.len()
        invariant
            i <= after@.len(),
            bs == texts(before@),
            keep == (|m: Seq<char>| !bs.contains(m)),
            texts(r@) == texts(after@).subrange(0, i as int).filter(keep),
        decreases after.len() - i,
    {
        let ghost a = texts(after@);
        assert(a.subrange(0, i + 1).drop_last() =~= a.subrange(0, i as int));
        assert(a.subrange(0, i + 1).filter(keep) == if keep(a[i as int]) {
            a.subrange(0, i as int).filter(keep).push(a[i as int])
        } else {
            a.subrange(0, i as int).filter(keep)
        }) by {
            reveal(Seq::filter);
        }
        let mut found = false;
        let mut j: usize = 0;
        while j < before.len()
            invariant
                j <= before@.len(),
                i < after@.len(),
                bs == texts(before@),
                found == exists|k: int| 0 <= k < j && bs[k] == after@[i as int]@,
            decreases before.len() - j,
        {
            let eq = before[j] == after[i];
            assert(bs[j as int] == before@[j as int]@);
            if eq {
                found = true;
            }
            j = j + 1;
        }
        assert(found == bs.contains(a[i as int])) by {
            if found {
                let k = choose|k: int| 0 <= k < before@.len() && bs[k] == after@[i as int]@;
                assert(bs[k] == a[i as int]);
            }
            if bs.contains(a[i as int]) {
                let k = choose|k: int| 0 <= k < bs.len() && bs[k] == a[i as int];
                assert(bs[k] == after@[i as int]@);
            }
        }
        if !found {
            let ghost before_r = texts(r@);
            r.push(after[i].clone());
            assert(texts(r@) =~= before_r.push(a[i as int]));
        }
        i = i + 1;
    }
    assert(texts(after@).subrange(0, after@.len() as int) =~= texts(after@));
    r
}

} // verus!
