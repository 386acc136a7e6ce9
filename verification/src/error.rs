//! The error type of the AppImage build pipeline.

use vstd::prelude::*;

use crate::text::{concat, chars_of, string_of};

verus! {

/// Errors produced by the AppImage build pipeline.
#[derive(Debug)]
pub enum Error {
    /// The AppDir path is missing or unreadable.
    AppDirNotFound(String),
    /// No `.desktop` entry found at the AppDir root.
    NoDesktopEntry,
    /// No `.DirIcon` found at the AppDir root.
    NoDirIcon,
    /// No `AppRun` entry-point script found at the AppDir root.
    NoAppRun,
    /// HTTP download failed after exhausting retries.
    DownloadFailed {
        /// URL the download targeted.
        url: String,
        /// Underlying error reported by the HTTP client.
        reason: String,
    },
    /// The named ELF section was not present in the runtime binary.
    SectionNotFound(String),
    /// The runtime binary did not parse as a valid ELF or had section headers
    /// pointing outside the file.
    MalformedElf,
    /// Tried to write more bytes into an ELF section than fit.
    SectionOverflow {
        /// Name of the section we tried to write.
        name: String,
        /// Length of the value we tried to write.
        size: usize,
        /// Capacity of the destination section.
        capacity: usize,
    },
    /// `mkdwarfs` exited with a non-zero status.
    DwarfsFailed(String),
    /// `mksquashfs` exited with a non-zero status.
    SquashfsFailed(String),
    /// Failed to generate the `.zsync` control file.
    ZsyncGenerate(String),
    /// Failed to write the generated `.zsync` control file to disk.
    ZsyncWrite(String),
    /// Configuration or precondition error not covered by a more specific variant.
    Config(String),
    /// An underlying I/O error, by its message.
    Io(String),
}

/// The text of a fixed message.
fn lit(s: &str) -> (v: Vec<char>)
    ensures
        v@ == s@,
{
    chars_of(s)
}

/// `a`, then the characters of `s`, then `b`.
fn wrap(a: &str, s: &String, b: &str) -> (v: Vec<char>)
    ensures
        v@ == a@ + s@ + b@,
{
    let x = concat(&lit(a), &chars_of(s.as_str()));
    concat(&x, &lit(b))
}

/// The decimal digits of `n`.
pub open spec fn decimal(n: nat) -> Seq<char>
    decreases n,
{
    if n < 10 {
        seq![digit_char(n)]
    } else {
        decimal(n / 10) + seq![digit_char(n % 10)]
    }
}

/// The ASCII digit for `d < 10`.
pub open spec fn digit_char(d: nat) -> char {
    if d == 0 { '0' } else if d == 1 { '1' } else if d == 2 { '2' } else if d == 3 { '3' }
    else if d == 4 { '4' } else if d == 5 { '5' } else if d == 6 { '6' } else if d == 7 { '7' }
    else if d == 8 { '8' } else { '9' }
}

fn digit(d: usize) -> (c: char)
    requires
        d < 10,
    ensures
        c == digit_char(d as nat),
{
    if d == 0 { '0' } else if d == 1 { '1' } else if d == 2 { '2' } else if d == 3 { '3' }
    else if d == 4 { '4' } else if d == 5 { '5' } else if d == 6 { '6' } else if d == 7 { '7' }
    else if d == 8 { '8' } else { '9' }
}

/// The decimal digits of `n`.
pub fn decimal_of(n: usize) -> (v: Vec<char>)
    ensures
        v@ == decimal(n as nat),
    decreases n,
{
    if n < 10 {
        let mut v = Vec::new();
        v.push(digit(n));
        v
    } else {
        let mut v = decimal_of(n / 10);
        v.push(digit(n % 10));
        v
    }
}

impl Error {
    /// The message of this error, as the user sees it.
    pub open spec fn spec_message(&self) -> Seq<char> {
        match self {
            Error::AppDirNotFound(p) => "AppDir not found: "@ + p@
                + "\n  hint: provide a valid AppDir path via --appdir or the APPDIR env var"@,
            Error::NoDesktopEntry =>
                "No .desktop file found in AppDir\n  hint: place exactly one .desktop file in the AppDir root"@,
            Error::NoDirIcon =>
                "No .DirIcon found in AppDir\n  hint: add a PNG/SVG icon as .DirIcon in the AppDir root"@,
            Error::NoAppRun =>
                "No AppRun found in AppDir\n  hint: add an executable AppRun script in the AppDir root"@,
            Error::DownloadFailed { url, reason } => "Failed to download "@ + url@ + ": "@ + (""@
                + reason@ + "\n  hint: check your network connection and the URL"@),
            Error::SectionNotFound(n) => "ELF section '"@ + n@
                + "' not found in runtime\n  hint: the runtime binary may be incompatible or corrupted; try a different --runtime or remove the cached download"@,
            Error::MalformedElf =>
                "Runtime is not a valid ELF binary or has corrupt section headers\n  hint: remove the cached runtime and let it re-download, or pass a known-good binary via --runtime"@,
            Error::SectionOverflow { name, size, capacity } => "Data too large for ELF section '"@
                + name@ + "': "@ + decimal(*size as nat) + " > "@ + decimal(*capacity as nat)
                + " bytes\n  hint: shorten the value or use a runtime with larger ELF sections"@,
            Error::DwarfsFailed(m) => "mkdwarfs failed: "@ + m@
                + "\n  hint: check that the AppDir contents are valid and readable"@,
            Error::SquashfsFailed(m) => "mksquashfs failed: "@ + m@ + ""@,
            Error::ZsyncGenerate(m) => "zsync generation failed: "@ + m@
                + "\n  hint: ensure the output AppImage was created successfully"@,
            Error::ZsyncWrite(m) => "zsync write failed: "@ + m@ + ""@,
            Error::Config(m) => ""@ + m@ + ""@,
            Error::Io(m) => ""@ + m@ + ""@,
        }
    }

    /// The message shown to the user for this error.
    pub fn message(&self) -> (s: String)
        ensures
            s@ == self.spec_message(),
    {
        let v = match self {
            Error::AppDirNotFound(p) => wrap(
                "AppDir not found: ",
                p,
                "\n  hint: provide a valid AppDir path via --appdir or the APPDIR env var",
            ),
            Error::NoDesktopEntry => lit(
                "No .desktop file found in AppDir\n  hint: place exactly one .desktop file in the AppDir root",
            ),
            Error::NoDirIcon => lit(
                "No .DirIcon found in AppDir\n  hint: add a PNG/SVG icon as .DirIcon in the AppDir root",
            ),
            Error::NoAppRun => lit(
                "No AppRun found in AppDir\n  hint: add an executable AppRun script in the AppDir root",
            ),
            Error::DownloadFailed { url, reason } => {
                let a = wrap("Failed to download ", url, ": ");
                let b = wrap("", reason, "\n  hint: check your network connection and the URL");
                concat(&a, &b)
            },
            Error::SectionNotFound(n) => wrap(
                "ELF section '",
                n,
                "' not found in runtime\n  hint: the runtime binary may be incompatible or corrupted; try a different --runtime or remove the cached download",
            ),
            Error::MalformedElf => lit(
                "Runtime is not a valid ELF binary or has corrupt section headers\n  hint: remove the cached runtime and let it re-download, or pass a known-good binary via --runtime",
            ),
            Error::SectionOverflow { name, size, capacity } => {
                let a = wrap("Data too large for ELF section '", name, "': ");
                let b = concat(&a, &decimal_of(*size));
                let c = concat(&b, &lit(" > "));
                let d = concat(&c, &decimal_of(*capacity));
                concat(
                    &d,
                    &lit(" bytes\n  hint: shorten the value or use a runtime with larger ELF sections"),
                )
            },
            Error::DwarfsFailed(m) => wrap(
                "mkdwarfs failed: ",
                m,
                "\n  hint: check that the AppDir contents are valid and readable",
            ),
            Error::SquashfsFailed(m) => wrap("mksquashfs failed: ", m, ""),
            Error::ZsyncGenerate(m) => wrap(
                "zsync generation failed: ",
                m,
                "\n  hint: ensure the output AppImage was created successfully",
            ),
            Error::ZsyncWrite(m) => wrap("zsync write failed: ", m, ""),
            Error::Config(m) => wrap("", m, ""),
            Error::Io(m) => wrap("", m, ""),
        };
        string_of(&v)
    }
}

} // verus!
