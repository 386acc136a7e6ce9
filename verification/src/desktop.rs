//! Parse and edit `.desktop` entry files of an AppDir.
//!
//! The file system is the caller's: these functions take the names found in
//! the AppDir and the text of the entry, and give back what to write.

use vstd::prelude::*;

use crate::error::Error;
use crate::text::{
    after_last, after_last_window, chars_of, end_while, ends_with, first_word, first_word_bounds, has_prefix,
    has_suffix, lines, lines_of, push_all, rows, slice_chars, start_while, starts_with, string_of, trim_char,
    trim_chars_of, trim_end_char, trim_end_chars, trim_window,
};
use crate::util::{sanitize_filename, spec_sanitize};

verus! {

/// Parsed metadata from a .desktop file.
#[derive(Debug)]
pub struct DesktopEntry {
    /// Path on disk to the parsed `.desktop` file.
    pub path: String,
    /// `Name=` value (preserves whitespace).
    pub name: String,
    /// `Exec=` value (preserves whitespace).
    pub exec_value: String,
    /// `Icon=` value, if present.
    pub icon_name: Option<String>,
}

/// The index of the first of `ls[i..]` that starts with `p`.
pub open spec fn first_with_prefix(ls: Seq<Seq<char>>, p: Seq<char>, i: int) -> Option<int>
    decreases ls.len() - i,
{
    if i >= ls.len() {
        None
    } else if starts_with(ls[i], p) {
        Some(i)
    } else {
        first_with_prefix(ls, p, i + 1)
    }
}

/// The value of `key` in the desktop entry text `content`: the rest of the
/// first line that starts with `key=`, without trailing carriage returns and
/// surrounding double quotes.
pub open spec fn spec_parse_key(content: Seq<char>, key: Seq<char>) -> Option<Seq<char>> {
    let p = key + seq!['='];
    let ls = lines(content);
    match first_with_prefix(ls, p, 0) {
        None => None,
        Some(i) => Some(
            trim_char(trim_end_char(ls[i].subrange(p.len() as int, ls[i].len() as int), '\r'), '"'),
        ),
    }
}

proof fn lemma_first_with_prefix(ls: Seq<Seq<char>>, p: Seq<char>, i: int)
    requires
        0 <= i,
    ensures
        first_with_prefix(ls, p, i) matches Some(k) ==> i <= k < ls.len() && starts_with(ls[k], p),
    decreases ls.len() - i,
{
    if i < ls.len() {
        lemma_first_with_prefix(ls, p, i + 1);
    }
}

proof fn lemma_first_with_prefix_at(ls: Seq<Seq<char>>, p: Seq<char>, i: int, k: int)
    requires
        0 <= i <= k < ls.len(),
        starts_with(ls[k], p),
        forall|j: int| i <= j < k ==> !starts_with(#[trigger] ls[j], p),
    ensures
        first_with_prefix(ls, p, i) == Some(k),
    decreases k - i,
{
    if i < k {
        lemma_first_with_prefix_at(ls, p, i + 1, k);
    }
}

proof fn lemma_first_with_prefix_none(ls: Seq<Seq<char>>, p: Seq<char>, i: int)
    requires
        0 <= i,
        forall|j: int| i <= j < ls.len() ==> !starts_with(#[trigger] ls[j], p),
    ensures
        first_with_prefix(ls, p, i) is None,
    decreases ls.len() - i,
{
    if i < ls.len() {
        lemma_first_with_prefix_none(ls, p, i + 1);
    }
}

/// The value of a key comes from the first line that starts with `key=`:
/// where line `k` of the entry is that line (no earlier line starts with
/// `key=`), the value is the rest of line `k` after `key=`, less trailing
/// carriage returns and surrounding double quotes, whatever later lines
/// (such as those of a `[Desktop Action ...]` section) say; where no line
/// starts with `key=`, there is no value.
pub proof fn lemma_parse_key_takes_first_line(content: Seq<char>, key: Seq<char>, k: int)
    ensures
        (0 <= k < lines(content).len() && starts_with(lines(content)[k], key + seq!['='])
            && forall|j: int| 0 <= j < k ==> !starts_with(#[trigger] lines(content)[j], key + seq!['=']))
            ==> spec_parse_key(content, key) == Some(
            trim_char(
                trim_end_char(
                    lines(content)[k].subrange(key.len() + 1int, lines(content)[k].len() as int),
                    '\r',
                ),
                '"',
            ),
        ),
        (forall|j: int|
            0 <= j < lines(content).len() ==> !starts_with(#[trigger] lines(content)[j], key + seq!['=']))
            ==> spec_parse_key(content, key) is None,
{
    let ls = lines(content);
    let p = key + seq!['='];
    if 0 <= k < ls.len() && starts_with(ls[k], p) && forall|j: int|
        0 <= j < k ==> !starts_with(#[trigger] ls[j], p) {
        lemma_first_with_prefix_at(ls, p, 0, k);
    }
    if forall|j: int| 0 <= j < ls.len() ==> !starts_with(#[trigger] ls[j], p) {
        lemma_first_with_prefix_none(ls, p, 0);
    }
}

/// Where the first line that starts with `key=` reads `key=v`, and `v`
/// neither starts nor ends with a double quote nor ends with a carriage
/// return, the value is `v` exactly, inner spaces and all.
pub proof fn lemma_parse_key_plain_value(content: Seq<char>, key: Seq<char>, k: int, v: Seq<char>)
    requires
        0 <= k < lines(content).len(),
        lines(content)[k] == key + seq!['='] + v,
        forall|j: int| 0 <= j < k ==> !starts_with(#[trigger] lines(content)[j], key + seq!['=']),
        v.len() > 0 ==> v[0] != '"' && v[v.len() - 1] != '"' && v[v.len() - 1] != '\r',
    ensures
        spec_parse_key(content, key) == Some(v),
{
    let l = lines(content)[k];
    assert(l.subrange(0, key.len() + 1int) =~= key + seq!['=']);
    lemma_parse_key_takes_first_line(content, key, k);
    assert(l.subrange(key.len() + 1int, l.len() as int) =~= v);
    assert(end_while(v, '\r', v.len() as int) == v.len());
    assert(v.subrange(0, v.len() as int) =~= v);
    assert(start_while(v, '"', 0) == 0);
    assert(end_while(v, '"', v.len() as int) == v.len());
}

/// Parse a key from a .desktop file. Preserves whitespace inside the value —
/// the desktop spec allows `Name=My App` and similar — but trims surrounding
/// quotes and trailing CR (for CRLF files).
pub fn parse_key(content: &str, key: &str) -> (r: Option<String>)
    ensures
        match r {
            Some(v) => spec_parse_key(content@, key@) == Some(v@),
            None => spec_parse_key(content@, key@) is None,
        },
{
    let mut prefix = chars_of(key);
    prefix.push('=');
    let c = chars_of(content);
    let ls = lines_of(&c);
    let mut i: usize = 0;
    while i < ls.len()
        invariant
            i <= ls@.len(),
            rows(ls@) == lines(content@),
            prefix@ == key@ + seq!['='],
            first_with_prefix(lines(content@), prefix@, i as int) == first_with_prefix(
                lines(content@),
                prefix@,
                0,
            ),
        decreases ls.len() - i,
    {
        assert(rows(ls@)[i as int] == ls@[i as int]@);
        if has_prefix(ls[i].as_slice(), prefix.as_slice()) {
            let line = &ls[i];
            let rest = slice_chars(line, prefix.len(), line.len());
            let no_cr = trim_end_chars(&rest, '\r');
            let v = trim_chars_of(&no_cr, '"');
            return Some(string_of(&v));
        }
        i = i + 1;
    }
    None
}

/// The program name of an `Exec=` value: its first word, unquoted, without
/// the directories before it.
pub open spec fn spec_main_binary(exec: Seq<char>) -> Option<Seq<char>> {
    match first_word(exec) {
        None => None,
        Some(w) => Some(after_last(trim_char(w, '"'), '/')),
    }
}

/// The desktop-entry file name `f` has the extension `desktop`, as
/// `Path::extension` reads it: after a final dot that does not begin the name.
pub open spec fn has_desktop_ext(f: Seq<char>) -> bool {
    f.len() > 8 && ends_with(f, ".desktop"@)
}

/// What choosing the entry among the file names `names[i..]` of an AppDir
/// gives, `found` being the entry seen before `i`: `Some(None)` when there is
/// none, `Some(Some(k))` when `names[k]` is the only one, `None` when there
/// are several.
pub open spec fn spec_select_desktop_file(names: Seq<Seq<char>>, i: int, found: Option<int>) -> Option<
    Option<int>,
>
    decreases names.len() - i,
{
    if i >= names.len() {
        Some(found)
    } else if has_desktop_ext(names[i]) {
        if found is Some {
            None
        } else {
            spec_select_desktop_file(names, i + 1, Some(i))
        }
    } else {
        spec_select_desktop_file(names, i + 1, found)
    }
}

proof fn lemma_select_from(ns: Seq<Seq<char>>, i: int, found: Option<int>)
    requires
        0 <= i <= ns.len(),
        match found {
            None => forall|j: int| 0 <= j < i ==> !has_desktop_ext(#[trigger] ns[j]),
            Some(f) => 0 <= f < i && has_desktop_ext(ns[f]) && forall|j: int|
                0 <= j < i && j != f ==> !has_desktop_ext(#[trigger] ns[j]),
        },
    ensures
        match spec_select_desktop_file(ns, i, found) {
            Some(Some(k)) => 0 <= k < ns.len() && has_desktop_ext(ns[k]) && forall|j: int|
                0 <= j < ns.len() && j != k ==> !has_desktop_ext(#[trigger] ns[j]),
            Some(None) => forall|j: int| 0 <= j < ns.len() ==> !has_desktop_ext(#[trigger] ns[j]),
            None => exists|a: int, b: int|
                0 <= a < b < ns.len() && has_desktop_ext(#[trigger] ns[a]) && has_desktop_ext(
                    #[trigger] ns[b],
                ),
        },
    decreases ns.len() - i,
{
    if i < ns.len() {
        if has_desktop_ext(ns[i]) {
            if found is Some {
                let f = found->0;
                assert(has_desktop_ext(ns[f]) && has_desktop_ext(ns[i]));
            } else {
                lemma_select_from(ns, i + 1, Some(i));
            }
        } else {
            lemma_select_from(ns, i + 1, found);
        }
    }
}

/// The entry chosen among an AppDir's file names is the one name longer
/// than `.desktop` that ends in `.desktop`, where exactly one does; no
/// entry is chosen where none does, and the choice fails where two or more
/// do.
pub proof fn lemma_select_desktop_file_unique(ns: Seq<Seq<char>>)
    ensures
        match spec_select_desktop_file(ns, 0, None) {
            Some(Some(k)) => 0 <= k < ns.len() && ns[k].len() > 8 && ends_with(ns[k], ".desktop"@)
                && forall|j: int|
                0 <= j < ns.len() && j != k ==> !(#[trigger] ns[j].len() > 8 && ends_with(
                    ns[j],
                    ".desktop"@,
                )),
            Some(None) => forall|j: int|
                0 <= j < ns.len() ==> !(#[trigger] ns[j].len() > 8 && ends_with(ns[j], ".desktop"@)),
            None => exists|a: int, b: int|
                0 <= a < b < ns.len() && (#[trigger] ns[a]).len() > 8 && ends_with(
                    ns[a],
                    ".desktop"@,
                ) && (#[trigger] ns[b]).len() > 8 && ends_with(ns[b], ".desktop"@),
        },
{
    lemma_select_from(ns, 0, None);
    match spec_select_desktop_file(ns, 0, None) {
        Some(Some(k)) => {
            assert forall|j: int| 0 <= j < ns.len() && j != k implies !(#[trigger] ns[j].len() > 8
                && ends_with(ns[j], ".desktop"@)) by {
                assert(!has_desktop_ext(ns[j]));
            }
        },
        Some(None) => {
            assert forall|j: int| 0 <= j < ns.len() implies !(#[trigger] ns[j].len() > 8 && ends_with(
                ns[j],
                ".desktop"@,
            )) by {
                assert(!has_desktop_ext(ns[j]));
            }
        },
        None => {
            let (a, b) = choose|a: int, b: int|
                0 <= a < b < ns.len() && has_desktop_ext(#[trigger] ns[a]) && has_desktop_ext(
                    #[trigger] ns[b],
                );
            assert(0 <= a < b < ns.len() && (ns[a]).len() > 8 && ends_with(ns[a], ".desktop"@)
                && (ns[b]).len() > 8 && ends_with(ns[b], ".desktop"@));
        },
    }
}

/// `"desktop"`, the extension of an entry file.
fn desktop_suffix() -> (v: Vec<char>)
    ensures
        v@ == ".desktop"@,
{
    chars_of(".desktop")
}

/// Whether `f` names a desktop entry file.
pub fn is_desktop_file_name(f: &str) -> (b: bool)
    ensures
        b == has_desktop_ext(f@),
{
    let v = chars_of(f);
    v.len() > 8 && has_suffix(&v, &desktop_suffix())
}

impl DesktopEntry {
    /// An entry read from the `.desktop` file at `path` holding `content`:
    /// `Name=` and `Exec=` default to empty, `Icon=` is optional.
    pub fn from_content(path: &str, content: &str) -> (r: DesktopEntry)
        ensures
            r.path@ == path@,
            r.name@ == match spec_parse_key(content@, "Name"@) {
                Some(v) => v,
                None => Seq::empty(),
            },
            r.exec_value@ == match spec_parse_key(content@, "Exec"@) {
                Some(v) => v,
                None => Seq::empty(),
            },
            match r.icon_name {
                Some(i) => spec_parse_key(content@, "Icon"@) == Some(i@),
                None => spec_parse_key(content@, "Icon"@) is None,
            },
    {
        let name = match parse_key(content, "Name") {
            Some(v) => v,
            None => String::new(),
        };
        let exec = match parse_key(content, "Exec") {
            Some(v) => v,
            None => String::new(),
        };
        let icon_name = parse_key(content, "Icon");
        DesktopEntry { path: string_of(&chars_of(path)), name, exec_value: exec, icon_name }
    }

    /// Find the single top-level `.desktop` file among the file names of the
    /// AppDir: its index, `NoDesktopEntry` when there is none, and a
    /// configuration error when there are several.
    pub fn select_desktop_file(names: &Vec<String>) -> (r: Result<usize, Error>)
        ensures
            match spec_select_desktop_file(names@.map_values(|n: String| n@), 0, None) {
                Some(Some(i)) => r == Ok::<usize, Error>(i as usize),
                Some(None) => r matches Err(Error::NoDesktopEntry),
                None => r matches Err(Error::Config(m))
                    && m@ == "multiple .desktop files found in AppDir, expected exactly one"@,
            },
    {
        let ghost ns = names@.map_values(|n: String| n@);
        let mut found: Option<usize> = None;
        let mut i: usize = 0;
        while i < names.len()
            invariant
                i <= names@.len(),
                ns == names@.map_values(|n: String| n@),
                spec_select_desktop_file(ns, 0, None) == spec_select_desktop_file(
                    ns,
                    i as int,
                    match found {
                        Some(f) => Some(f as int),
                        None => None,
                    },
                ),
            decreases names.len() - i,
        {
            assert(ns[i as int] == names@[i as int]@);
            if is_desktop_file_name(names[i].as_str()) {
                if found.is_some() {
                    return Err(
                        Error::Config(
                            string_of(
                                &chars_of(
                                    "multiple .desktop files found in AppDir, expected exactly one",
                                ),
                            ),
                        ),
                    );
                }
                found = Some(i);
            }
            i = i + 1;
        }
        match found {
            Some(f) => Ok(f),
            None => Err(Error::NoDesktopEntry),
        }
    }

    /// Get the main binary name from the Exec key.
    pub fn main_binary(&self) -> (r: Option<&str>)
        ensures
            match r {
                Some(n) => spec_main_binary(self.exec_value@) == Some(n@),
                None => spec_main_binary(self.exec_value@) is None,
            },
    {
        let e = chars_of(self.exec_value.as_str());
        let (a, b) = first_word_bounds(&e)?;
        let (x, y) = trim_window(&e, a, b, '"');
        let z = after_last_window(&e, x, y, '/');
        Some(self.exec_value.as_str().substring_char(z, y))
    }

    /// Verify `.DirIcon` exists in the AppDir, given whether it does.
    pub fn check_dir_icon(dir_icon_exists: bool) -> (r: Result<(), Error>)
        ensures
            dir_icon_exists ==> r is Ok,
            !dir_icon_exists ==> r matches Err(Error::NoDirIcon),
    {
        if dir_icon_exists {
            Ok(())
        } else {
            Err(Error::NoDirIcon)
        }
    }

    /// Verify `AppRun` exists in the AppDir, given whether it does.
    pub fn check_apprun(apprun_exists: bool) -> (r: Result<(), Error>)
        ensures
            apprun_exists ==> r is Ok,
            !apprun_exists ==> r matches Err(Error::NoAppRun),
    {
        if apprun_exists {
            Ok(())
        } else {
            Err(Error::NoAppRun)
        }
    }
}

/// The output filename for `app_name`, `version` and `arch`.
pub open spec fn spec_output_name(app: Seq<char>, version: Option<Seq<char>>, arch: Seq<char>) -> Seq<
    char,
> {
    match version {
        Some(v) if v.len() > 0 => spec_sanitize(app) + "-"@ + spec_sanitize(v) + "-anylinux-"@
            + arch + ".AppImage"@,
        _ => spec_sanitize(app) + "-anylinux-"@ + arch + ".AppImage"@,
    }
}

/// Compute the output filename: the sanitized name, the sanitized version
/// where one is given and not empty, then `anylinux` and the architecture.
pub fn compute_output_name(app_name: &str, version: Option<&str>, arch: &str) -> (r: String)
    ensures
        r@ == spec_output_name(
            app_name@,
            match version {
                Some(v) => Some(v@),
                None => None,
            },
            arch@,
        ),
{
    let app = chars_of(sanitize_filename(app_name).as_str());
    let mut out = app;
    if let Some(v) = version {
        if chars_of(v).len() > 0 {
            push_all(&mut out, &chars_of("-"));
            push_all(&mut out, &chars_of(sanitize_filename(v).as_str()));
        }
    }
    push_all(&mut out, &chars_of("-anylinux-"));
    push_all(&mut out, &chars_of(arch));
    push_all(&mut out, &chars_of(".AppImage"));
    string_of(&out)
}

} // verus!
