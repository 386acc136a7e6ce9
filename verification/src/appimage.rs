//! The text the AppImage build pipeline writes: the sorted `.env` file, the
//! `X-AppImage-*` metadata of the desktop entry, the nightly renaming and the
//! `appinfo` file, plus the decisions the pipeline takes from its inputs.

use vstd::prelude::*;

use crate::text::{
    chars_of, concat, contains, contains_seq, ends_with, has_prefix, has_suffix, join, join_chars,
    lines, lines_of, push_all, replace_all, replace_chars, rows, split, split_rec, starts_with,
    string_of, strip_cr,
};

use crate::config::{or_default, Config};
use crate::text::opt_chars;
use crate::desktop::{compute_output_name, spec_output_name};
use crate::util::{
    join_path, path_join, process_unique_path, sanitize_filename, spec_sanitize, spec_unique_path,
};

verus! {

/// Each of `xs` followed by a line feed.
pub open spec fn terminated(xs: Seq<Seq<char>>) -> Seq<char>
    decreases xs.len(),
{
    if xs.len() == 0 {
        Seq::empty()
    } else {
        terminated(xs.drop_last()) + xs.last() + seq!['\n']
    }
}

/// The lines of `ls` that start with `unset`.
pub open spec fn unset_lines(ls: Seq<Seq<char>>) -> Seq<Seq<char>> {
    ls.filter(|l: Seq<char>| starts_with(l, "unset"@))
}

/// The lines of `ls` that do not start with `unset`.
pub open spec fn other_lines(ls: Seq<Seq<char>>) -> Seq<Seq<char>> {
    ls.filter(|l: Seq<char>| !starts_with(l, "unset"@))
}

/// The `.env` text with every line that starts with `unset` moved after all
/// the others, each group in its own order, every line ending in a line feed.
pub open spec fn spec_sort_env(content: Seq<char>) -> Seq<char> {
    terminated(other_lines(lines(content))) + terminated(unset_lines(lines(content)))
}

proof fn lemma_filter_step(ls: Seq<Seq<char>>, i: int, p: spec_fn(Seq<char>) -> bool)
    requires
        0 <= i < ls.len(),
    ensures
        ls.subrange(0, i + 1).filter(p) == if p(ls[i]) {
            ls.subrange(0, i).filter(p).push(ls[i])
        } else {
            ls.subrange(0, i).filter(p)
        },
{
    reveal(Seq::filter);
    assert(ls.subrange(0, i + 1).drop_last() =~= ls.subrange(0, i));
}

/// Sort the text of the AppDir's `.env` file so all lines starting with
/// `unset` come after every other line, as the dotenv reader used by sharun
/// requires.
pub fn sort_env_content(content: &str) -> (r: String)
    ensures
        r@ == spec_sort_env(content@),
{
    let c = chars_of(content);
    let ls = lines_of(&c);
    let unset = chars_of("unset");
    let mut regular: Vec<char> = Vec::new();
    let mut unsets: Vec<char> = Vec::new();
    let mut i: usize = 0;
    while i < ls.len()
        invariant
            i <= ls@.len(),
            rows(ls@) == lines(content@),
            unset@ == "unset"@,
            regular@ == terminated(other_lines(rows(ls@).subrange(0, i as int))),
            unsets@ == terminated(unset_lines(rows(ls@).subrange(0, i as int))),
        decreases ls.len() - i,
    {
        let ghost l = rows(ls@)[i as int];
        assert(l == ls@[i as int]@);
        proof {
            lemma_filter_step(rows(ls@), i as int, |l: Seq<char>| starts_with(l, "unset"@));
            lemma_filter_step(rows(ls@), i as int, |l: Seq<char>| !starts_with(l, "unset"@));
        }
        if has_prefix(ls[i].as_slice(), &unset) {
            let ghost u0 = unset_lines(rows(ls@).subrange(0, i as int));
            push_all(&mut unsets, ls[i].as_slice());
            unsets.push('\n');
            assert(unset_lines(rows(ls@).subrange(0, i + 1)) == u0.push(l));
            assert(u0.push(l).drop_last() =~= u0);
        } else {
            let ghost g0 = other_lines(rows(ls@).subrange(0, i as int));
            push_all(&mut regular, ls[i].as_slice());
            regular.push('\n');
            assert(other_lines(rows(ls@).subrange(0, i + 1)) == g0.push(l));
            assert(g0.push(l).drop_last() =~= g0);
        }
        i = i + 1;
    }
    assert(rows(ls@).subrange(0, ls@.len() as int) =~= rows(ls@));
    string_of(&concat(&regular, &unsets))
}

/// The lines of `ls` other than earlier `X-AppImage-*` metadata.
pub open spec fn non_metadata_lines(ls: Seq<Seq<char>>) -> Seq<Seq<char>> {
    ls.filter(
        |l: Seq<char>|
            !starts_with(l, "X-AppImage-Name="@) && !starts_with(l, "X-AppImage-Version="@)
                && !starts_with(l, "X-AppImage-Arch="@),
    )
}

/// What a stamped desktop entry keeps of `content` before its metadata:
/// the lines that are not `X-AppImage-*` metadata, joined, ending in a
/// line feed.
pub open spec fn stamped_body(content: Seq<char>) -> Seq<char> {
    let j = join(non_metadata_lines(lines(content)), "\n"@);
    if ends_with(j, "\n"@) {
        j
    } else {
        j + "\n"@
    }
}

/// The desktop entry text `content` with its `X-AppImage-*` lines replaced
/// by the ones for `app`, `version` and `arch`.
pub open spec fn spec_metadata_content(
    content: Seq<char>,
    app: Seq<char>,
    version: Seq<char>,
    arch: Seq<char>,
) -> Seq<char> {
    stamped_body(content) + "X-AppImage-Name="@ + app + "\n"@ + "X-AppImage-Version="@ + version + "\n"@
        + "X-AppImage-Arch="@ + arch + "\n"@
}

/// Add `X-AppImage-*` entries to the text of a desktop entry, dropping any
/// it already carries.
pub fn metadata_content(content: &str, app_name: &str, version: &str, arch: &str) -> (r: String)
    ensures
        r@ == spec_metadata_content(content@, app_name@, version@, arch@),
{
    let c = chars_of(content);
    let ls = lines_of(&c);
    let p1 = chars_of("X-AppImage-Name=");
    let p2 = chars_of("X-AppImage-Version=");
    let p3 = chars_of("X-AppImage-Arch=");
    let mut kept: Vec<Vec<char>> = Vec::new();
    let mut i: usize = 0;
    while i < ls.len()
        invariant
            i <= ls@.len(),
            rows(ls@) == lines(content@),
            p1@ == "X-AppImage-Name="@,
            p2@ == "X-AppImage-Version="@,
            p3@ == "X-AppImage-Arch="@,
            rows(kept@) == non_metadata_lines(rows(ls@).subrange(0, i as int)),
        decreases ls.len() - i,
    {
        let ghost l = rows(ls@)[i as int];
        assert(l == ls@[i as int]@);
        proof {
            lemma_filter_step(
                rows(ls@),
                i as int,
                |l: Seq<char>|
                    !starts_with(l, "X-AppImage-Name="@) && !starts_with(
                        l,
                        "X-AppImage-Version="@,
                    ) && !starts_with(l, "X-AppImage-Arch="@),
            );
        }
        let line = ls[i].as_slice();
        if !has_prefix(line, &p1) && !has_prefix(line, &p2) && !has_prefix(line, &p3) {
            let ghost k0 = rows(kept@);
            kept.push(ls[i].clone());
            assert(rows(kept@) =~= k0.push(l));
        }
        i = i + 1;
    }
    assert(rows(ls@).subrange(0, ls@.len() as int) =~= rows(ls@));
    let nl = chars_of("\n");
    let mut out = join_chars(&kept, &nl);
    if !has_suffix(&out, &nl) {
        push_all(&mut out, &nl);
    }
    push_all(&mut out, &p1);
    push_all(&mut out, &chars_of(app_name));
    push_all(&mut out, &nl);
    push_all(&mut out, &p2);
    push_all(&mut out, &chars_of(version));
    push_all(&mut out, &nl);
    push_all(&mut out, &p3);
    push_all(&mut out, &chars_of(arch));
    push_all(&mut out, &nl);
    string_of(&out)
}

/// The text of the `appinfo` file written next to the AppImage.
pub open spec fn spec_appinfo(name: Seq<char>, version: Seq<char>, arch: Seq<char>) -> Seq<char> {
    "X-AppImage-Name="@ + name + "\n"@ + "X-AppImage-Version="@ + version + "\n"@
        + "X-AppImage-Arch="@ + arch + "\n"@
}

/// The text of the `appinfo` metadata file.
pub fn appinfo_content(name: &str, version: &str, arch: &str) -> (r: String)
    ensures
        r@ == spec_appinfo(name@, version@, arch@),
{
    let nl = chars_of("\n");
    let mut out = chars_of("X-AppImage-Name=");
    push_all(&mut out, &chars_of(name));
    push_all(&mut out, &nl);
    push_all(&mut out, &chars_of("X-AppImage-Version="));
    push_all(&mut out, &chars_of(version));
    push_all(&mut out, &nl);
    push_all(&mut out, &chars_of("X-AppImage-Arch="));
    push_all(&mut out, &chars_of(arch));
    push_all(&mut out, &nl);
    string_of(&out)
}

/// A line naming the application gets ` Nightly` appended.
pub open spec fn nightly_line(l: Seq<char>) -> Seq<char> {
    if starts_with(l, "Name="@) {
        l + " Nightly"@
    } else {
        l
    }
}

/// The desktop entry text of a devel release: `None` when it already says
/// `Nightly` and is left alone, else every `Name=` line with ` Nightly`
/// appended, the lines joined by line feeds.
pub open spec fn spec_nightly_content(content: Seq<char>) -> Option<Seq<char>> {
    if contains_seq(content, "Nightly"@) {
        None
    } else {
        Some(join(lines(content).map_values(|l: Seq<char>| nightly_line(l)), "\n"@))
    }
}

/// Rename the application for a devel release.
pub fn nightly_content(content: &str) -> (r: Option<String>)
    ensures
        match r {
            Some(s) => spec_nightly_content(content@) == Some(s@),
            None => spec_nightly_content(content@) is None,
        },
{
    let c = chars_of(content);
    if contains(&c, &chars_of("Nightly")) {
        return None;
    }
    let ls = lines_of(&c);
    let name = chars_of("Name=");
    let suffix = chars_of(" Nightly");
    let mut out: Vec<Vec<char>> = Vec::new();
    let mut i: usize = 0;
    while i < ls.len()
        invariant
            i <= ls@.len(),
            rows(ls@) == lines(content@),
            name@ == "Name="@,
            suffix@ == " Nightly"@,
            rows(out@) == rows(ls@).subrange(0, i as int).map_values(
                |l: Seq<char>| nightly_line(l),
            ),
        decreases ls.len() - i,
    {
        assert(rows(ls@)[i as int] == ls@[i as int]@);
        let line = if has_prefix(ls[i].as_slice(), &name) {
            concat(ls[i].as_slice(), &suffix)
        } else {
            ls[i].clone()
        };
        assert(line@ == nightly_line(ls@[i as int]@));
        let ghost o0 = rows(out@);
        out.push(line);
        assert(rows(out@) =~= o0.push(line@));
        assert(rows(out@) =~= rows(ls@).subrange(0, i + 1).map_values(
            |l: Seq<char>| nightly_line(l),
        ));
        i = i + 1;
    }
    assert(rows(ls@).subrange(0, ls@.len() as int) =~= rows(ls@));
    Some(string_of(&join_chars(&out, &chars_of("\n"))))
}

/// The update information of a devel release: `|latest|` becomes
/// `|nightly|`.
pub fn nightly_update_info(info: &str) -> (r: String)
    ensures
        r@ == replace_all(info@, "|latest|"@, "|nightly|"@),
{
    let pat = chars_of("|latest|");
    proof {
        reveal_strlit("|latest|");
    }
    string_of(&replace_chars(&chars_of(info), &pat, &chars_of("|nightly|")))
}

/// The names and paths one build works with, decided before anything is
/// built.
#[derive(Debug)]
pub struct BuildPlan {
    /// The sanitized application name.
    pub app_name: String,
    /// The version, `UNKNOWN` where none was found.
    pub version: String,
    /// The update information written into the runtime, if any; a `.zsync`
    /// file is generated exactly when there is some.
    pub update_info: Option<String>,
    /// The filename of the AppImage.
    pub output_name: String,
    /// Where the AppImage is written.
    pub output_path: String,
    /// The temporary image the profiling pass runs, where it runs.
    pub analyze_image: Option<String>,
    /// The DWARFS profile the final image is built with, where one is used
    /// (and exists).
    pub profile: Option<String>,
}

/// The view of an optional string, with `|latest|` made `|nightly|` where
/// `devel` asks for it.
pub open spec fn planned_update_info(info: Option<Seq<char>>, devel: bool) -> Option<Seq<char>> {
    match info {
        Some(i) if devel => Some(replace_all(i, "|latest|"@, "|nightly|"@)),
        _ => info,
    }
}

/// Decide the names and paths of a build, for the application named
/// `desktop_name` by its desktop entry, with `appname_env` the value of
/// `APPNAME` where it is set (it takes precedence), by process `pid`.
pub fn plan_build(config: &Config, desktop_name: &str, appname_env: Option<&str>, pid: u32) -> (p:
    BuildPlan)
    ensures
        p.app_name@ == spec_sanitize(
            match appname_env {
                Some(a) => a@,
                None => desktop_name@,
            },
        ),
        p.version@ == or_default(opt_chars(config.version), "UNKNOWN"@),
        opt_chars(p.update_info) == planned_update_info(opt_chars(config.update_info), config.devel_release),
        p.output_name@ == match opt_chars(config.output_name) {
            Some(n) => n,
            None => spec_output_name(p.app_name@, Some(p.version@), config.arch@),
        },
        p.output_path@ == path_join(config.output_dir@, p.output_name@),
        opt_chars(p.analyze_image) == if config.optimize_launch {
            Some(spec_unique_path(config.tmpdir@, ".analyze"@, pid as nat))
        } else {
            None
        },
        opt_chars(p.profile) == if config.optimize_launch {
            Some(
                or_default(opt_chars(config.dwarfs_profile), path_join(config.appdir@, ".dwarfsprofile"@)),
            )
        } else {
            opt_chars(config.dwarfs_profile)
        },
{
    let app_name = match appname_env {
        Some(a) => sanitize_filename(a),
        None => sanitize_filename(desktop_name),
    };
    let version = match &config.version {
        Some(v) => v.clone(),
        None => string_of(&chars_of("UNKNOWN")),
    };
    let update_info = match &config.update_info {
        Some(i) => if config.devel_release {
            Some(nightly_update_info(i.as_str()))
        } else {
            Some(i.clone())
        },
        None => None,
    };
    let output_name = match &config.output_name {
        Some(n) => n.clone(),
        None => compute_output_name(app_name.as_str(), Some(version.as_str()), config.arch.as_str()),
    };
    let output_path = join_path(config.output_dir.as_str(), output_name.as_str());
    let (analyze_image, profile) = if config.optimize_launch {
        let img = process_unique_path(config.tmpdir.as_str(), ".analyze", pid);
        let prof = match &config.dwarfs_profile {
            Some(d) => d.clone(),
            None => join_path(config.appdir.as_str(), ".dwarfsprofile"),
        };
        (Some(img), Some(prof))
    } else {
        (None, config.dwarfs_profile.clone())
    };
    BuildPlan { app_name, version, update_info, output_name, output_path, analyze_image, profile }
}

/// No piece of `s` split at `c` holds `c`.
proof fn lemma_split_pieces(s: Seq<char>, c: char, start: int, i: int)
    requires
        0 <= start <= i <= s.len(),
        forall|k: int| start <= k < i ==> s[k] != c,
    ensures
        forall|j: int|
            0 <= j < split_rec(s, c, start, i).len() ==> !(#[trigger] split_rec(s, c, start, i)[j]).contains(
                c,
            ),
    decreases s.len() - i,
{
    let r = split_rec(s, c, start, i);
    if i >= s.len() {
        let piece = s.subrange(start, s.len() as int);
        assert(r == seq![piece]);
        assert forall|j: int| 0 <= j < r.len() implies !(#[trigger] r[j]).contains(c) by {
            assert(r[j] == piece);
            if piece.contains(c) {
                let k = choose|k: int| 0 <= k < piece.len() && piece[k] == c;
                assert(s[start + k] == c);
            }
        }
    } else if s[i] == c {
        lemma_split_pieces(s, c, i + 1, i + 1);
        let piece = s.subrange(start, i);
        let rest = split_rec(s, c, i + 1, i + 1);
        assert(r == seq![piece] + rest);
        assert forall|j: int| 0 <= j < r.len() implies !(#[trigger] r[j]).contains(c) by {
            if j == 0 {
                assert(r[j] == piece);
                if piece.contains(c) {
                    let k = choose|k: int| 0 <= k < piece.len() && piece[k] == c;
                    assert(s[start + k] == c);
                }
            } else {
                assert(r[j] == rest[j - 1]);
            }
        }
    } else {
        lemma_split_pieces(s, c, start, i + 1);
        assert(r == split_rec(s, c, start, i + 1));
    }
}

/// No line of `s` holds a line feed.
proof fn lemma_lines_free(s: Seq<char>)
    ensures
        forall|j: int| 0 <= j < lines(s).len() ==> !(#[trigger] lines(s)[j]).contains('\n'),
{
    lemma_split_pieces(s, '\n', 0, 0);
    crate::text::lemma_split_nonempty(s, '\n', 0, 0);
    let parts = split(s, '\n');
    assert forall|j: int| 0 <= j < lines(s).len() implies !(#[trigger] lines(s)[j]).contains('\n') by {
        let piece = parts[j];
        assert(!piece.contains('\n'));
        if j < parts.len() - 1 && piece.len() > 0 && piece.last() == '\r' {
            let d = piece.drop_last();
            if d.contains('\n') {
                let k = choose|k: int| 0 <= k < d.len() && d[k] == '\n';
                assert(piece[k] == '\n');
            }
        }
    }
}

/// What every element of `s` satisfies, every element of a filter of it
/// does.
proof fn lemma_filter_keeps(s: Seq<Seq<char>>, p: spec_fn(Seq<char>) -> bool, q: spec_fn(Seq<char>) -> bool)
    requires
        forall|j: int| 0 <= j < s.len() ==> q(#[trigger] s[j]),
    ensures
        forall|j: int| 0 <= j < s.filter(p).len() ==> q(#[trigger] s.filter(p)[j]),
    decreases s.len(),
{
    reveal(Seq::filter);
    if s.len() > 0 {
        lemma_filter_keeps(s.drop_last(), p, q);
        let f = s.drop_last().filter(p);
        if p(s.last()) {
            assert forall|j: int| 0 <= j < f.push(s.last()).len() implies q(
                #[trigger] f.push(s.last())[j],
            ) by {
                if j < f.len() {
                    assert(f.push(s.last())[j] == f[j]);
                }
            }
        }
    }
}

/// `terminated` of a sequence with a first element.
proof fn lemma_terminated_cons(xs: Seq<Seq<char>>)
    requires
        xs.len() > 0,
    ensures
        terminated(xs) == xs[0] + seq!['\n'] + terminated(xs.drop_first()),
    decreases xs.len(),
{
    if xs.len() == 1 {
        assert(xs.drop_first() =~= Seq::<Seq<char>>::empty());
        assert(xs.drop_last() =~= Seq::<Seq<char>>::empty());
        assert(terminated(xs.drop_last()) =~= Seq::<char>::empty());
        assert(xs.last() == xs[0]);
        assert(terminated(xs) =~= xs[0] + seq!['\n']);
        assert(terminated(xs.drop_first()) =~= Seq::<char>::empty());
    } else {
        lemma_terminated_cons(xs.drop_last());
        assert(xs.drop_last().drop_first() =~= xs.drop_first().drop_last());
        assert(xs.drop_first().last() == xs.last());
        assert(xs.drop_last()[0] == xs[0]);
        assert(terminated(xs) =~= xs[0] + seq!['\n'] + terminated(xs.drop_first()));
    }
}

/// Lines free of line feeds, each followed by one, split back into
/// themselves and an empty rest.
proof fn lemma_split_terminated(xs: Seq<Seq<char>>)
    requires
        forall|j: int| 0 <= j < xs.len() ==> !(#[trigger] xs[j]).contains('\n'),
    ensures
        split(terminated(xs), '\n') == xs + seq![Seq::<char>::empty()],
    decreases xs.len(),
{
    if xs.len() == 0 {
        crate::text::lemma_split_single(Seq::<char>::empty(), '\n');
        assert(xs + seq![Seq::<char>::empty()] =~= seq![Seq::<char>::empty()]);
    } else {
        lemma_terminated_cons(xs);
        let rest = xs.drop_first();
        assert forall|j: int| 0 <= j < rest.len() implies !(#[trigger] rest[j]).contains('\n') by {
            assert(rest[j] == xs[j + 1]);
        }
        lemma_split_terminated(rest);
        assert(!xs[0].contains('\n'));
        crate::text::lemma_split_cons(xs[0], '\n', terminated(rest));
        assert(seq![xs[0]] + (rest + seq![Seq::<char>::empty()]) =~= xs + seq![Seq::<char>::empty()]);
    }
}

/// Lines free of line feeds, each followed by one, read back as
/// themselves, less a carriage return each ends with.
proof fn lemma_lines_terminated(xs: Seq<Seq<char>>)
    requires
        forall|j: int| 0 <= j < xs.len() ==> !(#[trigger] xs[j]).contains('\n'),
    ensures
        lines(terminated(xs)) == xs.map_values(|x: Seq<char>| strip_cr(x)),
{
    lemma_split_terminated(xs);
    assert(lines(terminated(xs)) =~= xs.map_values(|x: Seq<char>| strip_cr(x)));
}

/// `terminated` distributes over concatenation.
proof fn lemma_terminated_add(a: Seq<Seq<char>>, b: Seq<Seq<char>>)
    ensures
        terminated(a + b) == terminated(a) + terminated(b),
    decreases b.len(),
{
    if b.len() == 0 {
        assert(a + b =~= a);
        assert(terminated(a) + terminated(b) =~= terminated(a));
    } else {
        lemma_terminated_add(a, b.drop_last());
        assert((a + b).drop_last() =~= a + b.drop_last());
        assert((a + b).last() == b.last());
        assert(terminated(a + b) =~= terminated(a) + terminated(b));
    }
}

/// A line starts with `unset` before a carriage return is dropped from it
/// exactly where it does after.
proof fn lemma_strip_cr_unset(l: Seq<char>)
    ensures
        starts_with(strip_cr(l), "unset"@) == starts_with(l, "unset"@),
{
    reveal_strlit("unset");
    if l.len() > 0 && l.last() == '\r' {
        if l.len() >= 6 {
            assert(strip_cr(l).subrange(0, 5) =~= l.subrange(0, 5));
        } else if l.len() == 5 {
            assert(l[4] == '\r');
            assert(!starts_with(l, "unset"@)) by {
                if starts_with(l, "unset"@) {
                    assert(l.subrange(0, 5)[4] == 't');
                }
            }
        }
    }
}

/// The sorted `.env` text reads back as the lines of the original that do
/// not start with `unset`, then those that do, each group in its original
/// order (a line loses a carriage return it ends with): every `unset` line
/// comes after every other line.
pub proof fn lemma_sorted_env_lines(content: Seq<char>)
    ensures
        lines(spec_sort_env(content)) == other_lines(lines(content)).map_values(
            |x: Seq<char>| strip_cr(x),
        ) + unset_lines(lines(content)).map_values(|x: Seq<char>| strip_cr(x)),
        forall|i: int, j: int|
            0 <= i < j < lines(spec_sort_env(content)).len() && starts_with(
                #[trigger] lines(spec_sort_env(content))[i],
                "unset"@,
            ) ==> starts_with(#[trigger] lines(spec_sort_env(content))[j], "unset"@),
{
    let ls = lines(content);
    let o = other_lines(ls);
    let u = unset_lines(ls);
    lemma_lines_free(content);
    let free = |x: Seq<char>| !x.contains('\n');
    assert forall|j: int| 0 <= j < ls.len() implies free(#[trigger] ls[j]) by {}
    lemma_filter_keeps(ls, |l: Seq<char>| !starts_with(l, "unset"@), free);
    lemma_filter_keeps(ls, |l: Seq<char>| starts_with(l, "unset"@), free);
    lemma_terminated_add(o, u);
    assert forall|j: int| 0 <= j < (o + u).len() implies !(#[trigger] (o + u)[j]).contains('\n') by {
        if j < o.len() {
            assert((o + u)[j] == o[j]);
            assert(free(o[j]));
        } else {
            assert((o + u)[j] == u[j - o.len()]);
            assert(free(u[j - o.len()]));
        }
    }
    lemma_lines_terminated(o + u);
    let f = |x: Seq<char>| strip_cr(x);
    assert((o + u).map_values(f) =~= o.map_values(f) + u.map_values(f));
    let r = lines(spec_sort_env(content));
    assert forall|i: int, j: int|
        0 <= i < j < r.len() && starts_with(#[trigger] r[i], "unset"@) implies starts_with(
        #[trigger] r[j],
        "unset"@,
    ) by {
        if i < o.len() {
            lemma_strip_cr_unset(o[i]);
            assert(r[i] == strip_cr(o[i]));
            ls.lemma_filter_pred(|l: Seq<char>| !starts_with(l, "unset"@), i);
            assert(!starts_with(o[i], "unset"@));
        } else {
            assert(j >= o.len());
            assert(r[j] == strip_cr(u[j - o.len()]));
            lemma_strip_cr_unset(u[j - o.len()]);
            ls.lemma_filter_pred(|l: Seq<char>| starts_with(l, "unset"@), j - o.len());
            assert(starts_with(u[j - o.len()], "unset"@));
        }
    }
}

/// Pieces joined by line feeds, with one more at the end, are the pieces
/// each followed by a line feed.
proof fn lemma_join_terminated(xs: Seq<Seq<char>>)
    requires
        xs.len() >= 1,
    ensures
        join(xs, "\n"@) + "\n"@ == terminated(xs),
    decreases xs.len(),
{
    reveal_strlit("\n");
    if xs.len() == 1 {
        assert(xs.drop_last() =~= Seq::<Seq<char>>::empty());
        assert(terminated(xs.drop_last()) =~= Seq::<char>::empty());
        assert(join(xs, "\n"@) + "\n"@ =~= terminated(xs));
    } else {
        lemma_join_terminated(xs.drop_last());
        assert(join(xs, "\n"@) + "\n"@ =~= terminated(xs));
    }
}

/// Pieces free of line feeds joined by them end in one only where there
/// are two or more and the last is empty.
proof fn lemma_join_ends(xs: Seq<Seq<char>>)
    requires
        forall|j: int| 0 <= j < xs.len() ==> !(#[trigger] xs[j]).contains('\n'),
    ensures
        ends_with(join(xs, "\n"@), "\n"@) <==> (xs.len() >= 2 && xs.last().len() == 0),
{
    reveal_strlit("\n");
    let j = join(xs, "\n"@);
    if xs.len() == 0 {
        assert(j.len() == 0);
    } else if xs.len() == 1 {
        assert(j == xs[0]);
        if ends_with(j, "\n"@) {
            assert(j.subrange(j.len() - 1, j.len() as int)[0] == '\n');
            assert(xs[0][xs[0].len() - 1] == '\n');
            assert(xs[0].contains('\n'));
        }
    } else {
        let l = xs.last();
        assert(!l.contains('\n'));
        assert(j == join(xs.drop_last(), "\n"@) + "\n"@ + l);
        if l.len() == 0 {
            assert(j.subrange(j.len() - 1, j.len() as int) =~= "\n"@);
        } else {
            assert(j.subrange(j.len() - 1, j.len() as int)[0] == l[l.len() - 1]);
            if ends_with(j, "\n"@) {
                assert(l.contains('\n'));
            }
        }
    }
}

/// The lines a stamped desktop entry keeps before its metadata: the
/// non-metadata lines, less a final empty one after others, and a single
/// empty line where there are none.
pub open spec fn kept_lines(ls: Seq<Seq<char>>) -> Seq<Seq<char>> {
    if ls.len() == 0 {
        seq![Seq::<char>::empty()]
    } else if ls.len() >= 2 && ls.last().len() == 0 {
        ls.drop_last()
    } else {
        ls
    }
}

/// The metadata lines for `app`, `version` and `arch`.
pub open spec fn metadata_lines(app: Seq<char>, version: Seq<char>, arch: Seq<char>) -> Seq<Seq<char>> {
    seq!["X-AppImage-Name="@ + app, "X-AppImage-Version="@ + version, "X-AppImage-Arch="@ + arch]
}

/// Whether a line is `X-AppImage-*` metadata.
pub open spec fn is_metadata_line(l: Seq<char>) -> bool {
    starts_with(l, "X-AppImage-Name="@) || starts_with(l, "X-AppImage-Version="@) || starts_with(
        l,
        "X-AppImage-Arch="@,
    )
}

proof fn lemma_strip_cr_prefix(l: Seq<char>, p: Seq<char>)
    requires
        p.len() > 0,
        p.last() != '\r',
    ensures
        starts_with(strip_cr(l), p) == starts_with(l, p),
{
    if l.len() > 0 && l.last() == '\r' {
        if l.len() > p.len() {
            assert(strip_cr(l).subrange(0, p.len() as int) =~= l.subrange(0, p.len() as int));
        } else if l.len() == p.len() {
            if starts_with(l, p) {
                assert(l.subrange(0, p.len() as int)[p.len() - 1] == l.last());
            }
        }
    }
}

/// A stamped desktop entry reads back as the lines it kept, none of them
/// metadata, then exactly one line each for the name, version and
/// architecture given (each less a carriage return it may end with), where
/// those hold no line feed: stamping again replaces the metadata rather
/// than adding to it.
pub proof fn lemma_metadata_lines(content: Seq<char>, app: Seq<char>, version: Seq<char>, arch: Seq<char>)
    requires
        !app.contains('\n'),
        !version.contains('\n'),
        !arch.contains('\n'),
    ensures
        lines(spec_metadata_content(content, app, version, arch)) == (kept_lines(
            non_metadata_lines(lines(content)),
        ) + metadata_lines(app, version, arch)).map_values(|x: Seq<char>| strip_cr(x)),
        ({
            let out = lines(spec_metadata_content(content, app, version, arch));
            &&& out.len() >= 3
            &&& forall|i: int|
                0 <= i < out.len() - 3 ==> !is_metadata_line(#[trigger] out[i])
            &&& starts_with(out[out.len() - 3], "X-AppImage-Name="@)
            &&& starts_with(out[out.len() - 2], "X-AppImage-Version="@)
            &&& starts_with(out[out.len() - 1], "X-AppImage-Arch="@)
        }),
{
    reveal_strlit("\n");
    reveal_strlit("X-AppImage-Name=");
    reveal_strlit("X-AppImage-Version=");
    reveal_strlit("X-AppImage-Arch=");
    let l = non_metadata_lines(lines(content));
    let k = kept_lines(l);
    let ms = metadata_lines(app, version, arch);
    lemma_stamped_body(content);
    let m0 = ms[0];
    let m1 = ms[1];
    let m2 = ms[2];
    assert(!m0.contains('\n')) by {
        if m0.contains('\n') {
            let x = choose|x: int| 0 <= x < m0.len() && m0[x] == '\n';
            if x >= 16 {
                assert(app[x - 16] == '\n');
            }
        }
    }
    assert(!m1.contains('\n')) by {
        if m1.contains('\n') {
            let x = choose|x: int| 0 <= x < m1.len() && m1[x] == '\n';
            if x >= 19 {
                assert(version[x - 19] == '\n');
            }
        }
    }
    assert(!m2.contains('\n')) by {
        if m2.contains('\n') {
            let x = choose|x: int| 0 <= x < m2.len() && m2[x] == '\n';
            if x >= 16 {
                assert(arch[x - 16] == '\n');
            }
        }
    }
    assert(terminated(ms) =~= m0 + "\n"@ + m1 + "\n"@ + m2 + "\n"@) by {
        let one = seq![m0];
        let two = seq![m0, m1];
        assert(ms.drop_last() =~= two);
        assert(two.drop_last() =~= one);
        assert(one.drop_last() =~= Seq::<Seq<char>>::empty());
        assert(terminated(one.drop_last()) =~= Seq::<char>::empty());
        assert(terminated(one) =~= m0 + "\n"@);
        assert(terminated(two) =~= m0 + "\n"@ + m1 + "\n"@);
    }
    assert(spec_metadata_content(content, app, version, arch) =~= terminated(k) + terminated(ms));
    lemma_terminated_add(k, ms);
    assert forall|i: int| 0 <= i < (k + ms).len() implies !(#[trigger] (k + ms)[i]).contains('\n') by {
        if i < k.len() {
            assert((k + ms)[i] == k[i]);
        } else {
            assert((k + ms)[i] == ms[i - k.len()]);
        }
    }
    lemma_lines_terminated(k + ms);
    let out = lines(spec_metadata_content(content, app, version, arch));
    let n = out.len();
    assert(n == k.len() + 3);
    assert forall|i: int| 0 <= i < n - 3 implies !is_metadata_line(#[trigger] out[i]) by {
        assert(out[i] == strip_cr(k[i]));
        lemma_strip_cr_prefix(k[i], "X-AppImage-Name="@);
        lemma_strip_cr_prefix(k[i], "X-AppImage-Version="@);
        lemma_strip_cr_prefix(k[i], "X-AppImage-Arch="@);
    }
    assert(out[n - 3] == strip_cr(m0));
    assert(out[n - 2] == strip_cr(m1));
    assert(out[n - 1] == strip_cr(m2));
    assert(m0.subrange(0, 16) =~= "X-AppImage-Name="@);
    assert(m1.subrange(0, 19) =~= "X-AppImage-Version="@);
    assert(m2.subrange(0, 16) =~= "X-AppImage-Arch="@);
    lemma_strip_cr_prefix(m0, "X-AppImage-Name="@);
    lemma_strip_cr_prefix(m1, "X-AppImage-Version="@);
    lemma_strip_cr_prefix(m2, "X-AppImage-Arch="@);
}

/// The body a stamp keeps is the kept lines, each ended by a line feed;
/// none of them holds a line feed or is metadata.
proof fn lemma_stamped_body(content: Seq<char>)
    ensures
        stamped_body(content) == terminated(kept_lines(non_metadata_lines(lines(content)))),
        forall|i: int|
            0 <= i < kept_lines(non_metadata_lines(lines(content))).len() ==> !(#[trigger] kept_lines(
                non_metadata_lines(lines(content)),
            )[i]).contains('\n') && !is_metadata_line(
                kept_lines(non_metadata_lines(lines(content)))[i],
            ),
{
    reveal_strlit("\n");
    reveal_strlit("X-AppImage-Name=");
    reveal_strlit("X-AppImage-Version=");
    reveal_strlit("X-AppImage-Arch=");
    let ls = lines(content);
    let pred = |l: Seq<char>|
        !starts_with(l, "X-AppImage-Name="@) && !starts_with(l, "X-AppImage-Version="@)
            && !starts_with(l, "X-AppImage-Arch="@);
    let l = non_metadata_lines(ls);
    assert(l == ls.filter(pred));
    lemma_lines_free(content);
    let free = |x: Seq<char>| !x.contains('\n');
    assert forall|j: int| 0 <= j < ls.len() implies free(#[trigger] ls[j]) by {}
    lemma_filter_keeps(ls, pred, free);
    assert forall|j: int| 0 <= j < l.len() implies !is_metadata_line(#[trigger] l[j]) by {
        ls.lemma_filter_pred(pred, j);
    }
    let k = kept_lines(l);
    lemma_join_ends(l);
    let j = join(l, "\n"@);
    let body = stamped_body(content);
    if l.len() == 0 {
        assert(j.len() == 0);
        assert(body =~= terminated(k)) by {
            assert(k.drop_last() =~= Seq::<Seq<char>>::empty());
            assert(terminated(k.drop_last()) =~= Seq::<char>::empty());
        }
    } else if l.len() >= 2 && l.last().len() == 0 {
        assert(j == join(l.drop_last(), "\n"@) + "\n"@ + l.last());
        lemma_join_terminated(l.drop_last());
        assert(body =~= terminated(k));
    } else {
        lemma_join_terminated(l);
        assert(body =~= terminated(k));
    }
    assert forall|i: int| 0 <= i < k.len() implies !(#[trigger] k[i]).contains('\n')
        && !is_metadata_line(k[i]) by {
        if l.len() > 0 {
            assert(k[i] == l[i]);
            assert(free(l[i]));
        } else {
            assert(k[i] =~= Seq::<char>::empty());
        }
    }
}

proof fn lemma_filter_keeps_front(a: Seq<Seq<char>>, b: Seq<Seq<char>>, p: spec_fn(Seq<char>) -> bool)
    requires
        forall|i: int| 0 <= i < a.len() ==> p(#[trigger] a[i]),
        forall|i: int| 0 <= i < b.len() ==> !p(#[trigger] b[i]),
    ensures
        (a + b).filter(p) == a,
    decreases a.len() + b.len(),
{
    reveal(Seq::filter);
    if b.len() > 0 {
        assert((a + b).drop_last() =~= a + b.drop_last());
        assert((a + b).last() == b[b.len() - 1]);
        lemma_filter_keeps_front(a, b.drop_last(), p);
    } else if a.len() > 0 {
        assert(a + b =~= a);
        assert(a.drop_last() + b =~= a.drop_last());
        assert(p(a[a.len() - 1]));
        lemma_filter_keeps_front(a.drop_last(), b, p);
        assert(a.drop_last().push(a.last()) =~= a);
    } else {
        assert(a + b =~= Seq::<Seq<char>>::empty());
    }
}

/// Stamping a desktop entry twice is stamping it once with the second
/// values: the first stamp's metadata lines are replaced, every other line
/// stays in its order, and exactly one line each of the new name, version
/// and architecture ends the entry. This holds where the first values hold
/// no line feed, no kept line still ends in a carriage return (one left by
/// `\r\r\n`, which the second reading strips), and the lines kept do not
/// end in two empty ones (each stamp drops one final empty line).
pub proof fn lemma_restamp_replaces_metadata(
    content: Seq<char>,
    app1: Seq<char>,
    version1: Seq<char>,
    arch1: Seq<char>,
    app2: Seq<char>,
    version2: Seq<char>,
    arch2: Seq<char>,
)
    requires
        !app1.contains('\n'),
        !version1.contains('\n'),
        !arch1.contains('\n'),
        !app2.contains('\n'),
        !version2.contains('\n'),
        !arch2.contains('\n'),
        forall|i: int|
            0 <= i < non_metadata_lines(lines(content)).len() ==> strip_cr(
                #[trigger] non_metadata_lines(lines(content))[i],
            ) == non_metadata_lines(lines(content))[i],
        !({
            let l = non_metadata_lines(lines(content));
            l.len() >= 3 && l[l.len() - 1].len() == 0 && l[l.len() - 2].len() == 0
        }),
    ensures
        spec_metadata_content(spec_metadata_content(content, app1, version1, arch1), app2, version2, arch2)
            == spec_metadata_content(content, app2, version2, arch2),
        lines(
            spec_metadata_content(
                spec_metadata_content(content, app1, version1, arch1),
                app2,
                version2,
                arch2,
            ),
        ) == (kept_lines(non_metadata_lines(lines(content))) + metadata_lines(
            app2,
            version2,
            arch2,
        )).map_values(|x: Seq<char>| strip_cr(x)),
{
    let l = non_metadata_lines(lines(content));
    let k = kept_lines(l);
    let out1 = spec_metadata_content(content, app1, version1, arch1);
    lemma_first_stamp_reread(content, app1, version1, arch1);
    lemma_stamped_body(content);
    lemma_stamped_body(out1);
    assert(kept_lines(k) == k);
    assert(stamped_body(out1) == stamped_body(content));
    lemma_metadata_lines(content, app2, version2, arch2);
}

/// Read back, a stamped entry's non-metadata lines are the lines it kept,
/// where none of those ends in a carriage return.
proof fn lemma_first_stamp_reread(content: Seq<char>, app: Seq<char>, version: Seq<char>, arch: Seq<char>)
    requires
        !app.contains('\n'),
        !version.contains('\n'),
        !arch.contains('\n'),
        forall|i: int|
            0 <= i < non_metadata_lines(lines(content)).len() ==> strip_cr(
                #[trigger] non_metadata_lines(lines(content))[i],
            ) == non_metadata_lines(lines(content))[i],
    ensures
        non_metadata_lines(lines(spec_metadata_content(content, app, version, arch))) == kept_lines(
            non_metadata_lines(lines(content)),
        ),
{
    reveal_strlit("X-AppImage-Name=");
    reveal_strlit("X-AppImage-Version=");
    reveal_strlit("X-AppImage-Arch=");
    let l = non_metadata_lines(lines(content));
    let k = kept_lines(l);
    lemma_stamped_body(content);
    let out1 = spec_metadata_content(content, app, version, arch);
    lemma_metadata_lines(content, app, version, arch);
    let ms = metadata_lines(app, version, arch);
    let ms2 = ms.map_values(|x: Seq<char>| strip_cr(x));
    assert forall|i: int| 0 <= i < k.len() implies strip_cr(#[trigger] k[i]) == k[i] by {
        if l.len() > 0 {
            assert(k[i] == l[i]);
        }
    }
    assert((k + ms).map_values(|x: Seq<char>| strip_cr(x)) =~= k + ms2);
    let pred = |x: Seq<char>|
        !starts_with(x, "X-AppImage-Name="@) && !starts_with(x, "X-AppImage-Version="@)
            && !starts_with(x, "X-AppImage-Arch="@);
    assert(ms[0].subrange(0, 16) =~= "X-AppImage-Name="@);
    assert(ms[1].subrange(0, 19) =~= "X-AppImage-Version="@);
    assert(ms[2].subrange(0, 16) =~= "X-AppImage-Arch="@);
    lemma_strip_cr_prefix(ms[0], "X-AppImage-Name="@);
    lemma_strip_cr_prefix(ms[1], "X-AppImage-Version="@);
    lemma_strip_cr_prefix(ms[2], "X-AppImage-Arch="@);
    assert forall|i: int| 0 <= i < ms2.len() implies !pred(#[trigger] ms2[i]) by {
        assert(ms2[i] == strip_cr(ms[i]));
    }
    assert forall|i: int| 0 <= i < k.len() implies pred(#[trigger] k[i]) by {}
    lemma_filter_keeps_front(k, ms2, pred);
    assert(non_metadata_lines(lines(out1)) == (k + ms2).filter(pred));
}

} // verus!
