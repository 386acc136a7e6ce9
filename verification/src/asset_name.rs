//! Reading a package's name and version out of a downloaded file's name:
//! dropping the platform decoration (`x86_64`, `linux`, `musl`, ...) and
//! matching what is left against `Name[-_.]v?Version`.

use vstd::prelude::*;

use crate::text::{
    chars_of, concat, is_digit, lower_chars, lowercase, push_all, rows, seq_eq, slice_chars,
    string_of,
};
use crate::url_package::{remove_extensions, spec_remove_extensions};

verus! {

/// Architecture words, which are never a package name. `x86_64` is why
/// they matter: its trailing `64` reads as a version and its leading `x86`
/// as part of the name.
pub open spec fn arch_words() -> Seq<Seq<char>> {
    seq![
        "x86_64"@, "ppc64le"@, "riscv64"@, "loong64"@, "aarch64"@, "armv7l"@, "armhf"@,
        "arm64"@, "amd64"@, "s390x"@, "i686"@, "i386"@,
    ]
}

/// Platform words, which a package may legitimately be called: they are
/// only dropped once the name is over.
pub open spec fn platform_words() -> Seq<Seq<char>> {
    seq![
        "unknown"@, "anylinux"@, "linux"@, "darwin"@, "apple"@, "windows"@, "musl"@, "gnu"@,
        "static"@,
    ]
}

/// Whether `w`, lowercased, is an architecture word.
pub open spec fn is_arch_word(w: Seq<char>) -> bool {
    arch_words().contains(lowercase(w))
}

/// Whether `w`, lowercased, is a platform word.
pub open spec fn is_platform_word(w: Seq<char>) -> bool {
    platform_words().contains(lowercase(w))
}

/// A character that separates the words of a filename.
pub open spec fn is_word_sep(c: char) -> bool {
    c == '-' || c == '_'
}

/// The words of `s[i..]` split at `-` and `_`, appended to `ws`, each with
/// the separator that follows it (`'\0'` after the last) appended to `ss`;
/// `cur` is the word in progress.
pub open spec fn scan_words(
    s: Seq<char>,
    i: int,
    ws: Seq<Seq<char>>,
    ss: Seq<char>,
    cur: Seq<char>,
) -> (Seq<Seq<char>>, Seq<char>)
    decreases s.len() - i,
{
    if i < 0 || i >= s.len() {
        (ws.push(cur), ss.push('\0'))
    } else if is_word_sep(s[i]) {
        scan_words(s, i + 1, ws.push(cur), ss.push(s[i]), seq![])
    } else {
        scan_words(s, i + 1, ws, ss, cur.push(s[i]))
    }
}

/// The words from position `i` on with each architecture word that a
/// separator split apart (such as `x86` `_` `64`) made one word again.
pub open spec fn rejoin(ws: Seq<Seq<char>>, ss: Seq<char>, i: int) -> (Seq<Seq<char>>, Seq<char>)
    decreases ws.len() - i,
{
    if i < 0 || i + 1 >= ws.len() || ss.len() != ws.len() {
        (ws, ss)
    } else {
        let joined = ws[i] + seq![ss[i]] + ws[i + 1];
        if is_arch_word(joined) {
            rejoin(ws.update(i, joined).remove(i + 1), ss.update(i, ss[i + 1]).remove(i + 1), i)
        } else {
            rejoin(ws, ss, i + 1)
        }
    }
}

/// Whether `w` starts with an ASCII digit.
pub open spec fn starts_with_digit(w: Seq<char>) -> bool {
    w.len() > 0 && is_digit(w[0])
}

/// Where the name ends: the index of the first word at or after `i` that
/// is an architecture word or starts with a digit, or the number of words.
pub open spec fn name_end(ws: Seq<Seq<char>>, i: int) -> int
    decreases ws.len() - i,
{
    if i < 0 || i >= ws.len() {
        ws.len() as int
    } else if is_arch_word(ws[i]) || starts_with_digit(ws[i]) {
        i
    } else {
        name_end(ws, i + 1)
    }
}

/// Whether word `i` is left out: it is empty, or it is past the name and
/// an architecture or platform word.
pub open spec fn word_dropped(ws: Seq<Seq<char>>, ne: int, i: int) -> bool {
    ws[i].len() == 0 || (i >= ne && (is_arch_word(ws[i]) || is_platform_word(ws[i])))
}

/// `out` followed by the words kept from position `i` on, each after the
/// separator that preceded it in the filename (none before the first).
pub open spec fn assemble(ws: Seq<Seq<char>>, ss: Seq<char>, ne: int, i: int, out: Seq<char>) -> Seq<
    char,
>
    decreases ws.len() - i,
{
    if i < 0 || i >= ws.len() {
        out
    } else if word_dropped(ws, ne, i) {
        assemble(ws, ss, ne, i + 1, out)
    } else if out.len() == 0 {
        assemble(ws, ss, ne, i + 1, ws[i])
    } else {
        assemble(
            ws,
            ss,
            ne,
            i + 1,
            out + seq![
                if i == 0 {
                    '-'
                } else {
                    ss[i - 1]
                },
            ] + ws[i],
        )
    }
}

/// A filename without its platform decoration: what names the package
/// and, where the name carries one, its version. The separators are kept
/// as they were.
pub open spec fn spec_strip_platform_words(base: Seq<char>) -> Seq<char> {
    let split = scan_words(base, 0, seq![], seq![], seq![]);
    let words = rejoin(split.0, split.1, 0);
    assemble(words.0, words.1, name_end(words.0, 0), 0, seq![])
}

proof fn lemma_scan_plain(s: Seq<char>, i: int, ws: Seq<Seq<char>>, ss: Seq<char>, cur: Seq<char>)
    requires
        0 <= i <= s.len(),
        forall|k: int| i <= k < s.len() ==> !is_word_sep(#[trigger] s[k]),
    ensures
        scan_words(s, i, ws, ss, cur) == (ws.push(cur + s.subrange(i, s.len() as int)), ss.push(
            '\0',
        )),
    decreases s.len() - i,
{
    if i < s.len() {
        lemma_scan_plain(s, i + 1, ws, ss, cur.push(s[i]));
        assert(cur.push(s[i]) + s.subrange(i + 1, s.len() as int) =~= cur + s.subrange(
            i,
            s.len() as int,
        ));
    } else {
        assert(cur + s.subrange(i, s.len() as int) =~= cur);
    }
}

/// A filename of one word (no `-` or `_` in it) that is no architecture
/// and does not start with a digit comes back whole, even where it reads
/// like a platform (a package called `windows` keeps its name): the name
/// runs until the version or the architecture, and only what follows it
/// loses its platform words.
pub proof fn lemma_single_word_name_kept(base: Seq<char>)
    requires
        base.len() > 0,
        forall|k: int| 0 <= k < base.len() ==> !is_word_sep(#[trigger] base[k]),
        !is_arch_word(base),
        !starts_with_digit(base),
    ensures
        spec_strip_platform_words(base) == base,
{
    lemma_scan_plain(base, 0, seq![], seq![], seq![]);
    let split = scan_words(base, 0, seq![], seq![], seq![]);
    assert(seq![] + base.subrange(0, base.len() as int) =~= base);
    assert(split.0 =~= seq![base]);
    assert(split.1 =~= seq!['\0']);
    let words = rejoin(split.0, split.1, 0);
    assert(words == (split.0, split.1));
    assert(name_end(words.0, 1) == 1);
    assert(name_end(words.0, 0) == 1);
    assert(!word_dropped(words.0, 1, 0));
    assert(assemble(words.0, words.1, 1, 1, base) == base);
}

proof fn lemma_scan_segment(
    s: Seq<char>,
    i: int,
    j: int,
    ws: Seq<Seq<char>>,
    ss: Seq<char>,
    cur: Seq<char>,
)
    requires
        0 <= i <= j < s.len(),
        forall|k: int| i <= k < j ==> !is_word_sep(#[trigger] s[k]),
        is_word_sep(s[j]),
    ensures
        scan_words(s, i, ws, ss, cur) == scan_words(
            s,
            j + 1,
            ws.push(cur + s.subrange(i, j)),
            ss.push(s[j]),
            seq![],
        ),
    decreases j - i,
{
    if i < j {
        lemma_scan_segment(s, i + 1, j, ws, ss, cur.push(s[i]));
        assert(cur.push(s[i]) + s.subrange(i + 1, j) =~= cur + s.subrange(i, j));
    } else {
        assert(cur + s.subrange(i, j) =~= cur);
    }
}

/// Past the version, a platform word is dropped while the name and the
/// version stay with the separator between them: `tool-1.0-linux` comes
/// back as `tool-1.0`. The name is one word that is no architecture and
/// does not start with a digit, the version one that starts with a digit
/// and is neither an architecture nor a platform word, and no two
/// neighbours join into an architecture word (as `x86` and `64` do).
pub proof fn lemma_platform_after_version_dropped(
    name: Seq<char>,
    c1: char,
    version: Seq<char>,
    c2: char,
    platform: Seq<char>,
)
    requires
        name.len() > 0,
        version.len() > 0,
        platform.len() > 0,
        forall|k: int| 0 <= k < name.len() ==> !is_word_sep(#[trigger] name[k]),
        forall|k: int| 0 <= k < version.len() ==> !is_word_sep(#[trigger] version[k]),
        forall|k: int| 0 <= k < platform.len() ==> !is_word_sep(#[trigger] platform[k]),
        is_word_sep(c1),
        is_word_sep(c2),
        !is_arch_word(name),
        !starts_with_digit(name),
        starts_with_digit(version),
        !is_arch_word(version),
        !is_platform_word(version),
        is_platform_word(platform),
        !is_arch_word(name + seq![c1] + version),
        !is_arch_word(version + seq![c2] + platform),
    ensures
        spec_strip_platform_words(name + seq![c1] + version + seq![c2] + platform) == name + seq![c1]
            + version,
{
    let base = name + seq![c1] + version + seq![c2] + platform;
    let a = name.len() as int;
    let b = a + 1 + version.len();
    assert(base.subrange(0, a) =~= name);
    assert(base.subrange(a + 1, b) =~= version);
    assert(base.subrange(b + 1, base.len() as int) =~= platform);
    assert forall|k: int| 0 <= k < a implies !is_word_sep(#[trigger] base[k]) by {
        assert(base[k] == name[k]);
    }
    assert forall|k: int| a + 1 <= k < b implies !is_word_sep(#[trigger] base[k]) by {
        assert(base[k] == version[k - a - 1]);
    }
    assert forall|k: int| b + 1 <= k < base.len() implies !is_word_sep(#[trigger] base[k]) by {
        assert(base[k] == platform[k - b - 1]);
    }
    assert(base[a] == c1);
    assert(base[b] == c2);
    lemma_scan_segment(base, 0, a, seq![], seq![], seq![]);
    assert(seq![] + base.subrange(0, a) =~= name);
    lemma_scan_segment(base, a + 1, b, seq![name], seq![c1], seq![]);
    assert(seq![] + base.subrange(a + 1, b) =~= version);
    lemma_scan_plain(base, b + 1, seq![name, version], seq![c1, c2], seq![]);
    assert(seq![] + base.subrange(b + 1, base.len() as int) =~= platform);
    let split = scan_words(base, 0, seq![], seq![], seq![]);
    assert(seq![].push(name) =~= seq![name]);
    assert(seq![name].push(version) =~= seq![name, version]);
    assert(seq![name, version].push(platform) =~= seq![name, version, platform]);
    assert(seq![].push(c1) =~= seq![c1]);
    assert(seq![c1].push(c2) =~= seq![c1, c2]);
    assert(seq![c1, c2].push('\0') =~= seq![c1, c2, '\0']);
    assert(split.0 =~= seq![name, version, platform]);
    assert(split.1 =~= seq![c1, c2, '\0']);
    let ws = split.0;
    let ss = split.1;
    assert(ws[0] + seq![ss[0]] + ws[1] =~= name + seq![c1] + version);
    assert(ws[1] + seq![ss[1]] + ws[2] =~= version + seq![c2] + platform);
    assert(rejoin(ws, ss, 2) == (ws, ss));
    assert(rejoin(ws, ss, 1) == (ws, ss));
    assert(rejoin(ws, ss, 0) == (ws, ss));
    assert(name_end(ws, 1) == 1);
    assert(name_end(ws, 0) == 1);
    assert(!word_dropped(ws, 1, 0));
    assert(!word_dropped(ws, 1, 1));
    assert(word_dropped(ws, 1, 2));
    assert(assemble(ws, ss, 1, 3, name + seq![c1] + version) == name + seq![c1] + version);
    assert(assemble(ws, ss, 1, 2, name + seq![c1] + version) == name + seq![c1] + version);
    assert(assemble(ws, ss, 1, 1, name) == assemble(ws, ss, 1, 2, name + seq![c1] + version));
    assert(assemble(ws, ss, 1, 0, seq![]) == assemble(ws, ss, 1, 1, name));
}

fn arch_word(i: usize) -> (w: &'static str)
    requires
        i < 12,
    ensures
        w@ == arch_words()[i as int],
{
    if i == 0 {
        "x86_64"
    } else if i == 1 {
        "ppc64le"
    } else if i == 2 {
        "riscv64"
    } else if i == 3 {
        "loong64"
    } else if i == 4 {
        "aarch64"
    } else if i == 5 {
        "armv7l"
    } else if i == 6 {
        "armhf"
    } else if i == 7 {
        "arm64"
    } else if i == 8 {
        "amd64"
    } else if i == 9 {
        "s390x"
    } else if i == 10 {
        "i686"
    } else {
        "i386"
    }
}

fn platform_word(i: usize) -> (w: &'static str)
    requires
        i < 9,
    ensures
        w@ == platform_words()[i as int],
{
    if i == 0 {
        "unknown"
    } else if i == 1 {
        "anylinux"
    } else if i == 2 {
        "linux"
    } else if i == 3 {
        "darwin"
    } else if i == 4 {
        "apple"
    } else if i == 5 {
        "windows"
    } else if i == 6 {
        "musl"
    } else if i == 7 {
        "gnu"
    } else {
        "static"
    }
}

/// Whether `w` is an architecture word.
fn arch(w: &Vec<char>) -> (b: bool)
    ensures
        b == is_arch_word(w@),
{
    let l = lower_chars(w);
    let mut i: usize = 0;
    while i < 12
        invariant
            i <= 12,
            l@ == lowercase(w@),
            arch_words().len() == 12,
            forall|k: int| 0 <= k < i ==> arch_words()[k] != l@,
        decreases 12 - i,
    {
        if seq_eq(&chars_of(arch_word(i)), &l) {
            assert(arch_words()[i as int] == l@);
            return true;
        }
        i = i + 1;
    }
    assert(!arch_words().contains(l@));
    false
}

/// Whether `w` is a platform word.
fn platform(w: &Vec<char>) -> (b: bool)
    ensures
        b == is_platform_word(w@),
{
    let l = lower_chars(w);
    let mut i: usize = 0;
    while i < 9
        invariant
            i <= 9,
            l@ == lowercase(w@),
            platform_words().len() == 9,
            forall|k: int| 0 <= k < i ==> platform_words()[k] != l@,
        decreases 9 - i,
    {
        if seq_eq(&chars_of(platform_word(i)), &l) {
            assert(platform_words()[i as int] == l@);
            return true;
        }
        i = i + 1;
    }
    assert(!platform_words().contains(l@));
    false
}

/// The words of `s` and the separators after them.
fn split_words(s: &Vec<char>) -> (r: (Vec<Vec<char>>, Vec<char>))
    ensures
        (rows(r.0@), r.1@) == scan_words(s@, 0, seq![], seq![], seq![]),
        r.0@.len() == r.1@.len(),
        r.0@.len() >= 1,
{
    let mut ws: Vec<Vec<char>> = Vec::new();
    let mut ss: Vec<char> = Vec::new();
    let mut cur: Vec<char> = Vec::new();
    let mut i: usize = 0;
    assert(rows(ws@) =~= Seq::<Seq<char>>::empty());
    assert(cur@ =~= Seq::<char>::empty());
    while i < s.len()
        invariant
            i <= s@.len(),
            ws@.len() == ss@.len(),
            scan_words(s@, i as int, rows(ws@), ss@, cur@) == scan_words(
                s@,
                0,
                seq![],
                seq![],
                seq![],
            ),
        decreases s.len() - i,
    {
        let c = s[i];
        if c == '-' || c == '_' {
            let ghost before = rows(ws@);
            let done = cur;
            ws.push(done);
            ss.push(c);
            cur = Vec::new();
            assert(rows(ws@) =~= before.push(done@));
            assert(cur@ =~= Seq::<char>::empty());
        } else {
            cur.push(c);
        }
        i = i + 1;
    }
    let ghost before = rows(ws@);
    let last = cur;
    ws.push(last);
    ss.push('\0');
    assert(rows(ws@) =~= before.push(last@));
    (ws, ss)
}

/// Join again the architecture words that a separator split apart.
fn rejoin_words(ws: &mut Vec<Vec<char>>, ss: &mut Vec<char>)
    requires
        old(ws)@.len() == old(ss)@.len(),
    ensures
        (rows(final(ws)@), final(ss)@) == rejoin(rows(old(ws)@), old(ss)@, 0),
        final(ws)@.len() == final(ss)@.len(),
{
    let mut i: usize = 0;
    while i < ws.len() && i + 1 < ws.len()
        invariant
            i <= ws@.len(),
            ws@.len() == ss@.len(),
            rejoin(rows(ws@), ss@, i as int) == rejoin(rows(old(ws)@), old(ss)@, 0),
        decreases ws.len() - i,
    {
        let joined = concat(&concat(ws[i].as_slice(), &[ss[i]]), ws[i + 1].as_slice());
        assert(joined@ =~= rows(ws@)[i as int] + seq![ss@[i as int]] + rows(ws@)[i + 1]);
        if arch(&joined) {
            let ghost w0 = rows(ws@);
            let ghost s0 = ss@;
            let sep = ss[i + 1];
            let _ = ws.remove(i + 1);
            let _ = ws.remove(i);
            ws.insert(i, joined);
            let _ = ss.remove(i + 1);
            let _ = ss.remove(i);
            ss.insert(i, sep);
            assert(rows(ws@) =~= w0.update(i as int, joined@).remove(i + 1));
            assert(ss@ =~= s0.update(i as int, s0[i + 1]).remove(i + 1));
        } else {
            i = i + 1;
        }
    }
}

/// The index of the first word that ends the name.
fn find_name_end(ws: &Vec<Vec<char>>) -> (r: usize)
    ensures
        r == name_end(rows(ws@), 0),
{
    let mut i: usize = 0;
    while i < ws.len()
        invariant
            i <= ws@.len(),
            name_end(rows(ws@), i as int) == name_end(rows(ws@), 0),
        decreases ws.len() - i,
    {
        assert(rows(ws@)[i as int] == ws@[i as int]@);
        if arch(&ws[i]) || (ws[i].len() > 0 && '0' <= ws[i][0] && ws[i][0] <= '9') {
            return i;
        }
        i = i + 1;
    }
    i
}

/// Drop the platform decoration from a filename (its extension already
/// removed), leaving what names the package and, where the name carries
/// one, its version. A platform word within the name stays: the name runs
/// until the version or the architecture.
pub fn strip_platform_words(base: &str) -> (r: String)
    ensures
        r@ == spec_strip_platform_words(base@),
{
    let s = chars_of(base);
    let (mut ws, mut ss) = split_words(&s);
    rejoin_words(&mut ws, &mut ss);
    let ne = find_name_end(&ws);
    let ghost w = rows(ws@);
    let mut out: Vec<char> = Vec::new();
    let mut i: usize = 0;
    assert(out@ =~= Seq::<char>::empty());
    while i < ws.len()
        invariant
            i <= ws@.len(),
            ws@.len() == ss@.len(),
            w == rows(ws@),
            ne == name_end(w, 0),
            assemble(w, ss@, ne as int, i as int, out@) == assemble(
                w,
                ss@,
                ne as int,
                0,
                seq![],
            ),
        decreases ws.len() - i,
    {
        assert(w[i as int] == ws@[i as int]@);
        let word = &ws[i];
        let dropped = word.len() == 0 || (i >= ne && (arch(word) || platform(word)));
        if !dropped {
            let ghost before = out@;
            if out.len() > 0 {
                let sep = if i == 0 {
                    '-'
                } else {
                    ss[i - 1]
                };
                out.push(sep);
                push_all(&mut out, word.as_slice());
                assert(out@ =~= before + seq![sep] + w[i as int]);
            } else {
                push_all(&mut out, word.as_slice());
                assert(out@ =~= w[i as int]);
            }
        }
        i = i + 1;
    }
    string_of(&out)
}

/// A letter as the name pattern reads it without regard to case: an ASCII
/// letter, or one of the two characters that case folding equates with
/// one (the long s and the Kelvin sign).
pub open spec fn is_name_letter(c: char) -> bool {
    ('a' <= c && c <= 'z') || ('A' <= c && c <= 'Z') || c == '\u{17f}' || c == '\u{212a}'
}

/// A character that may follow the first letter of a name word.
pub open spec fn is_name_char(c: char) -> bool {
    is_name_letter(c) || is_digit(c)
}

/// A character that may separate the name from the version, and the
/// version from the rest.
pub open spec fn is_version_sep(c: char) -> bool {
    c == '-' || c == '_' || c == '.'
}

/// Whether the filename may go on after position `i` as "the rest": a
/// separator, then anything but a line break.
pub open spec fn rest_ok(s: Seq<char>, i: int) -> bool {
    0 <= i < s.len() && is_version_sep(s[i]) && forall|k: int| i < k < s.len() ==> s[k] != '\n'
}

/// Where the version ends when its digits run on at `i`: the dotted
/// digit groups are taken as far as they go and leave a rest that may
/// follow; none where no such end exists.
pub open spec fn version_end(s: Seq<char>, i: int) -> Option<int>
    decreases s.len() - i,
{
    if i < 0 {
        None
    } else if i >= s.len() {
        Some(s.len() as int)
    } else if is_digit(s[i]) {
        version_end(s, i + 1)
    } else if s[i] == '.' && i + 1 < s.len() && is_digit(s[i + 1]) {
        match version_end(s, i + 2) {
            Some(e) => Some(e),
            None => if rest_ok(s, i) {
                Some(i)
            } else {
                None
            },
        }
    } else if rest_ok(s, i) {
        Some(i)
    } else {
        None
    }
}

/// Where the version starts and ends when the name ends at `p`: a
/// separator, an optional `v`, then the version.
pub open spec fn after_name(s: Seq<char>, p: int) -> Option<(int, int)> {
    if 0 <= p && p < s.len() && is_version_sep(s[p]) {
        let q = if p + 1 < s.len() && (s[p + 1] == 'v' || s[p + 1] == 'V') {
            p + 2
        } else {
            p + 1
        };
        if q < s.len() && is_digit(s[q]) {
            match version_end(s, q + 1) {
                Some(e) => Some((q, e)),
                None => None,
            }
        } else {
            None
        }
    } else {
        None
    }
}

/// Inside a name word at `i`: the end of the name and the bounds of the
/// version, for the longest name (words joined by `_`, each starting with
/// a letter) that a version follows.
pub open spec fn name_scan(s: Seq<char>, i: int) -> Option<(int, int, int)>
    decreases s.len() - i,
{
    if i < 0 || i >= s.len() {
        None
    } else if is_name_char(s[i]) {
        name_scan(s, i + 1)
    } else {
        let longer = if s[i] == '_' && i + 1 < s.len() && is_name_letter(s[i + 1]) {
            name_scan(s, i + 2)
        } else {
            None
        };
        match longer {
            Some(r) => Some(r),
            None => match after_name(s, i) {
                Some(v) => Some((i, v.0, v.1)),
                None => None,
            },
        }
    }
}

/// How `Name[-_.]v?Version[-_.]...` matches `s`, case-insensitively:
/// where the name ends and where the version starts and ends.
pub open spec fn filename_match(s: Seq<char>) -> Option<(int, int, int)> {
    if s.len() > 0 && is_name_letter(s[0]) {
        name_scan(s, 1)
    } else {
        None
    }
}

/// The name and version read out of a filename: its extension and its
/// platform decoration removed, the name lowercased; the whole of what is
/// left, lowercased, and `unknown` where no version follows a name.
pub open spec fn spec_parse_filename(filename: Seq<char>) -> (Seq<char>, Seq<char>) {
    let b = spec_strip_platform_words(spec_remove_extensions(filename));
    match filename_match(b) {
        Some(m) => (lowercase(b.subrange(0, m.0)), b.subrange(m.1, m.2)),
        None => (lowercase(b), "unknown"@),
    }
}

fn name_letter(c: char) -> (b: bool)
    ensures
        b == is_name_letter(c),
{
    ('a' <= c && c <= 'z') || ('A' <= c && c <= 'Z') || c == '\u{17f}' || c == '\u{212a}'
}

fn digit(c: char) -> (b: bool)
    ensures
        b == is_digit(c),
{
    '0' <= c && c <= '9'
}

fn may_rest(s: &Vec<char>, i: usize) -> (b: bool)
    requires
        i < s.len(),
    ensures
        b == rest_ok(s@, i as int),
{
    let c = s[i];
    if !(c == '-' || c == '_' || c == '.') {
        return false;
    }
    let mut k = i + 1;
    while k < s.len()
        invariant
            i < k <= s@.len(),
            forall|j: int| i < j < k ==> s@[j] != '\n',
        decreases s.len() - k,
    {
        if s[k] == '\n' {
            return false;
        }
        k = k + 1;
    }
    true
}

fn find_version_end(s: &Vec<char>, i: usize) -> (r: Option<usize>)
    ensures
        match version_end(s@, i as int) {
            Some(e) => r == Some(e as usize) && e <= s@.len() && (i <= s@.len() ==> i <= e),
            None => r is None,
        },
    decreases s@.len() - i,
{
    if i >= s.len() {
        return Some(s.len());
    }
    if digit(s[i]) {
        return find_version_end(s, i + 1);
    }
    if s[i] == '.' && i + 1 < s.len() && digit(s[i + 1]) {
        match find_version_end(s, i + 2) {
            Some(e) => {
                return Some(e);
            },
            None => {},
        }
    }
    if may_rest(s, i) {
        Some(i)
    } else {
        None
    }
}

fn find_after_name(s: &Vec<char>, p: usize) -> (r: Option<(usize, usize)>)
    ensures
        match after_name(s@, p as int) {
            Some(v) => r == Some((v.0 as usize, v.1 as usize)) && v.0 <= v.1 <= s@.len(),
            None => r is None,
        },
{
    if !(p < s.len() && (s[p] == '-' || s[p] == '_' || s[p] == '.')) {
        return None;
    }
    let q = if p + 1 < s.len() && (s[p + 1] == 'v' || s[p + 1] == 'V') {
        p + 2
    } else {
        p + 1
    };
    if !(q < s.len() && digit(s[q])) {
        return None;
    }
    match find_version_end(s, q + 1) {
        Some(e) => Some((q, e)),
        None => None,
    }
}

fn scan_name(s: &Vec<char>, i: usize) -> (r: Option<(usize, usize, usize)>)
    ensures
        match name_scan(s@, i as int) {
            Some(m) => r == Some((m.0 as usize, m.1 as usize, m.2 as usize)) && 0 <= m.0
                <= m.1 <= m.2 <= s@.len(),
            None => r is None,
        },
    decreases s@.len() - i,
{
    if i >= s.len() {
        return None;
    }
    let c = s[i];
    if name_letter(c) || digit(c) {
        return scan_name(s, i + 1);
    }
    if c == '_' && i + 1 < s.len() && name_letter(s[i + 1]) {
        match scan_name(s, i + 2) {
            Some(m) => {
                return Some(m);
            },
            None => {},
        }
    }
    match find_after_name(s, i) {
        Some(v) => Some((i, v.0, v.1)),
        None => None,
    }
}

/// Parse a filename into a package name and version, for patterns such as
/// `Name-Version-platform.ext`, `name_version.ext` and `name-v1.2.ext`;
/// the version is `unknown` where the filename states none.
pub fn parse_filename(filename: &str) -> (r: (String, String))
    ensures
        (r.0@, r.1@) == spec_parse_filename(filename@),
{
    let stripped = remove_extensions(filename);
    let base = strip_platform_words(stripped.as_str());
    let b = chars_of(base.as_str());
    let m = if b.len() > 0 && name_letter(b[0]) {
        scan_name(&b, 1)
    } else {
        None
    };
    match m {
        Some((n, vs, ve)) => (
            string_of(&lower_chars(&slice_chars(&b, 0, n))),
            string_of(&slice_chars(&b, vs, ve)),
        ),
        None => {
            proof {
                reveal_strlit("unknown");
            }
            (string_of(&lower_chars(&b)), string_of(&chars_of("unknown")))
        },
    }
}

/// A version as the filename pattern reads one: digits and dots, starting
/// and ending with a digit.
pub open spec fn is_dotted_number(v: Seq<char>) -> bool {
    &&& v.len() > 0
    &&& is_digit(v[0])
    &&& is_digit(v[v.len() - 1])
    &&& forall|k: int| 0 <= k < v.len() ==> is_digit(#[trigger] v[k]) || v[k] == '.'
}

proof fn lemma_version_end(s: Seq<char>, i: int)
    requires
        0 < i <= s.len(),
        is_digit(s[i - 1]),
    ensures
        version_end(s, i) matches Some(e) ==> i <= e <= s.len() && is_digit(s[e - 1]) && forall|
            k: int,
        |
            i - 1 <= k < e ==> is_digit(#[trigger] s[k]) || s[k] == '.',
    decreases s.len() - i,
{
    if i < s.len() {
        if is_digit(s[i]) {
            lemma_version_end(s, i + 1);
        } else if s[i] == '.' && i + 1 < s.len() && is_digit(s[i + 1]) {
            lemma_version_end(s, i + 2);
        }
    }
}

proof fn lemma_name_scan(s: Seq<char>, i: int)
    requires
        0 <= i,
    ensures
        name_scan(s, i) matches Some(m) ==> after_name(s, m.0) == Some((m.1, m.2)),
    decreases s.len() - i,
{
    if i < s.len() {
        if is_name_char(s[i]) {
            lemma_name_scan(s, i + 1);
        } else if s[i] == '_' && i + 1 < s.len() && is_name_letter(s[i + 1]) {
            lemma_name_scan(s, i + 2);
        }
    }
}

/// The version read out of a filename is `unknown` or a dotted number
/// such as `1.2.3`: digits and dots, starting and ending with a digit.
pub proof fn lemma_parsed_version_is_numeric(filename: Seq<char>)
    ensures
        spec_parse_filename(filename).1 == "unknown"@ || is_dotted_number(
            spec_parse_filename(filename).1,
        ),
{
    let b = spec_strip_platform_words(spec_remove_extensions(filename));
    if let Some(m) = filename_match(b) {
        lemma_name_scan(b, 1);
        let p = m.0;
        let q = if p + 1 < b.len() && (b[p + 1] == 'v' || b[p + 1] == 'V') {
            p + 2
        } else {
            p + 1
        };
        assert(m.1 == q);
        lemma_version_end(b, q + 1);
        let v = b.subrange(m.1, m.2);
        assert forall|k: int| 0 <= k < v.len() implies is_digit(#[trigger] v[k]) || v[k] == '.' by {
            assert(v[k] == b[m.1 + k]);
        }
    }
}

} // verus!
