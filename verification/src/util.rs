//! Filename sanitisation and path helpers of the AppImage builder.

use vstd::prelude::*;

use crate::error::{decimal, decimal_of, Error};
use crate::text::{
    chars_of, concat, end_while, is_ctrl, is_control, is_whitespace, is_ws, string_of, trim_end_char,
    trim_end_chars,
};

verus! {

/// A character that cannot stand in a filename: whitespace, control
/// characters, path separators, NUL and the characters shells and Windows
/// treat specially.
pub open spec fn is_unsafe_char(c: char) -> bool {
    is_ws(c) || is_ctrl(c) || c == '"' || c == ':' || c == '>' || c == '<' || c == '*' || c
        == '|' || c == '?' || c == '/' || c == '\\' || c == '\0'
}

/// `s` with every unsafe character replaced by `_`.
pub open spec fn underscore_unsafe(s: Seq<char>) -> Seq<char> {
    s.map_values(|c: char| if is_unsafe_char(c) { '_' } else { c })
}

/// What `sanitize_filename` makes of `s`: unsafe characters become `_`,
/// then trailing underscores are dropped.
pub open spec fn spec_sanitize(s: Seq<char>) -> Seq<char> {
    trim_end_char(underscore_unsafe(s), '_')
}

fn unsafe_char(c: char) -> (b: bool)
    ensures
        b == is_unsafe_char(c),
{
    is_whitespace(c) || is_control(c) || c == '"' || c == ':' || c == '>' || c == '<' || c == '*'
        || c == '|' || c == '?' || c == '/' || c == '\\' || c == '\0'
}

/// Sanitize a string for use as a filename.
/// Replaces characters that are problematic in filenames — including path
/// separators and NUL — with underscores, then drops trailing underscores.
/// The desktop entry's `Name=` field flows into output paths, so this also
/// defends against path traversal.
pub fn sanitize_filename(s: &str) -> (r: String)
    ensures
        r@ == spec_sanitize(s@),
{
    let v = chars_of(s);
    let mut m: Vec<char> = Vec::new();
    let mut i: usize = 0;
    while i < v.len()
        invariant
            i <= v@.len(),
            m@ == underscore_unsafe(v@.subrange(0, i as int)),
        decreases v.len() - i,
    {
        let c = v[i];
        m.push(if unsafe_char(c) { '_' } else { c });
        i = i + 1;
        assert(m@ =~= underscore_unsafe(v@.subrange(0, i as int)));
    }
    assert(v@.subrange(0, v@.len() as int) =~= v@);
    let t = trim_end_chars(&m, '_');
    string_of(&t)
}

proof fn lemma_end_while(s: Seq<char>, c: char, j: int)
    requires
        0 <= j <= s.len(),
    ensures
        0 <= end_while(s, c, j) <= j,
        end_while(s, c, j) > 0 ==> s[end_while(s, c, j) - 1] != c,
    decreases j,
{
    if j > 0 && s[j - 1] == c {
        lemma_end_while(s, c, j - 1);
    }
}

/// A sanitized name holds no unsafe character and does not end in `_`.
pub proof fn lemma_sanitized_is_safe(s: Seq<char>)
    ensures
        forall|k: int|
            0 <= k < spec_sanitize(s).len() ==> !is_unsafe_char(#[trigger] spec_sanitize(s)[k]),
        spec_sanitize(s).len() > 0 ==> spec_sanitize(s).last() != '_',
{
    let m = underscore_unsafe(s);
    lemma_end_while(m, '_', m.len() as int);
}

/// Sanitizing twice gives what sanitizing once does.
pub proof fn lemma_sanitize_idempotent(s: Seq<char>)
    ensures
        spec_sanitize(spec_sanitize(s)) == spec_sanitize(s),
{
    let t = spec_sanitize(s);
    lemma_sanitized_is_safe(s);
    assert(underscore_unsafe(t) =~= t);
    if t.len() > 0 {
        assert(end_while(t, '_', t.len() as int) == t.len());
    }
    assert(trim_end_char(t, '_') =~= t);
}

/// `a` joined with the relative path `b`, as `Path::join` does: a `/` goes
/// between them unless `a` is empty or already ends with one.
pub open spec fn path_join(a: Seq<char>, b: Seq<char>) -> Seq<char> {
    if a.len() == 0 || a.last() == '/' {
        a + b
    } else {
        a + seq!['/'] + b
    }
}

/// `a` joined with the relative path `b`.
pub fn join_path(a: &str, b: &str) -> (r: String)
    ensures
        r@ == path_join(a@, b@),
{
    let av = chars_of(a);
    let bv = chars_of(b);
    if av.len() == 0 || av[av.len() - 1] == '/' {
        string_of(&concat(&av, &bv))
    } else {
        let mut x = av;
        x.push('/');
        string_of(&concat(&x, &bv))
    }
}

/// `dir` joined with `basename`, a dot and the decimal process id: a path
/// unique to the process, for transient files that concurrent builds in the
/// same temp directory must not share.
pub open spec fn spec_unique_path(dir: Seq<char>, basename: Seq<char>, pid: nat) -> Seq<char> {
    path_join(dir, basename + "."@ + decimal(pid))
}

/// Build a per-process unique path inside `dir` with the given basename,
/// for process `pid`.
pub fn process_unique_path(dir: &str, basename: &str, pid: u32) -> (r: String)
    ensures
        r@ == spec_unique_path(dir@, basename@, pid as nat),
{
    let mut name = chars_of(basename);
    name.push('.');
    proof {
        reveal_strlit(".");
    }
    assert(name@ == basename@ + "."@);
    let digits = decimal_of(pid as usize);
    let full = concat(&name, &digits);
    join_path(dir, string_of(&full).as_str())
}

/// The four bytes an ELF file starts with: `0x7f`, `E`, `L`, `F`.
pub open spec fn elf_magic() -> Seq<u8> {
    seq![0x7fu8, 0x45u8, 0x4cu8, 0x46u8]
}

/// Whether a file whose first bytes are `head` is an ELF file: it holds at
/// least four bytes and they are the ELF magic.
pub fn is_elf(head: &[u8]) -> (b: bool)
    ensures
        b == (head@.len() >= 4 && head@.subrange(0, 4) == elf_magic()),
{
    if head.len() < 4 {
        return false;
    }
    let r = head[0] == 0x7f && head[1] == 0x45 && head[2] == 0x4c && head[3] == 0x46;
    assert(r == (head@.subrange(0, 4) =~= elf_magic()));
    r
}

/// How many times a download is tried.
pub const DOWNLOAD_ATTEMPTS: u32 = 5;

/// What to do after an attempt at a download.
#[derive(Debug)]
pub enum DownloadStep {
    /// The file is in place.
    Done,
    /// Wait, then make the attempt with this number.
    Retry(u32),
    /// Give up with this error.
    Fail(Error),
}

/// The decision after attempt `attempt` (counted from 0) at downloading
/// `url` ended with `outcome`: done on success, else another attempt while
/// fewer than [`DOWNLOAD_ATTEMPTS`] were made, else a failure that carries
/// the last reason.
pub fn download_step(url: &str, attempt: u32, outcome: Result<(), String>) -> (r: DownloadStep)
    requires
        attempt < DOWNLOAD_ATTEMPTS,
    ensures
        match outcome {
            Ok(()) => r is Done,
            Err(reason) => if attempt + 1 < DOWNLOAD_ATTEMPTS {
                r matches DownloadStep::Retry(n) && n == attempt + 1
            } else {
                r matches DownloadStep::Fail(Error::DownloadFailed { url: u, reason: m }) && u@
                    == url@ && m@ == reason@
            },
        },
{
    match outcome {
        Ok(()) => DownloadStep::Done,
        Err(reason) => {
            if attempt + 1 < DOWNLOAD_ATTEMPTS {
                DownloadStep::Retry(attempt + 1)
            } else {
                DownloadStep::Fail(
                    Error::DownloadFailed { url: string_of(&chars_of(url)), reason: reason },
                )
            }
        },
    }
}

/// The reason given when a downloaded binary is not an ELF file.
pub open spec fn not_elf_reason() -> Seq<char> {
    "downloaded file is not a valid ELF binary"@
}

/// Check a freshly downloaded binary from `url` by its first bytes `head`:
/// it must be an ELF file, else the download failed (and the caller removes
/// the file so the next run downloads it again).
pub fn check_downloaded(url: &str, head: &[u8]) -> (r: Result<(), Error>)
    ensures
        (head@.len() >= 4 && head@.subrange(0, 4) == elf_magic()) ==> r is Ok,
        !(head@.len() >= 4 && head@.subrange(0, 4) == elf_magic()) ==> (r matches Err(
            Error::DownloadFailed { url: u, reason: m },
        ) && u@ == url@ && m@ == not_elf_reason()),
{
    if is_elf(head) {
        Ok(())
    } else {
        Err(
            Error::DownloadFailed {
                url: string_of(&chars_of(url)),
                reason: string_of(&chars_of("downloaded file is not a valid ELF binary")),
            },
        )
    }
}

} // verus!
