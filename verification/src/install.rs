//! The installer's decisions around a download: when a failed download is
//! tried again, and which directory of an unpacked archive becomes the
//! package's root.

use vstd::prelude::*;

use crate::text::{chars_of, lemma_filter_prefix, string_of};
use crate::util::{join_path, path_join};

verus! {

/// How a download attempt ended.
#[derive(Debug)]
pub enum AttemptOutcome {
    /// It completed.
    Done,
    /// The server answered with this HTTP status.
    HttpStatus(u16),
    /// The connection failed.
    Network,
    /// Any other failure.
    Other,
}

/// The most times a failed download is tried again.
pub const MAX_RETRIES: u32 = 5;

/// What follows a download attempt.
#[derive(Debug, PartialEq, Eq, Structural)]
pub enum RetryStep {
    /// The download is complete.
    Finished,
    /// The download fails with the attempt's error.
    Fail,
    /// Wait five seconds, `retries` retries being spent now; report the
    /// error to the progress display where `report` holds; then give up with
    /// this error where `give_up` holds, else try again.
    Retry { retries: u32, report: bool, give_up: bool },
}

/// Whether a failure is worth another try: the server asked to slow down
/// (HTTP 429) or the network failed.
pub open spec fn is_retryable(o: AttemptOutcome) -> bool {
    match o {
        AttemptOutcome::HttpStatus(s) => s == 429,
        AttemptOutcome::Network => true,
        _ => false,
    }
}

/// What follows an attempt that ended with `o`, `retries` retries having
/// been spent before it.
pub open spec fn spec_retry(retries: u32, o: AttemptOutcome) -> RetryStep {
    match o {
        AttemptOutcome::Done => RetryStep::Finished,
        _ => if is_retryable(o) {
            RetryStep::Retry {
                retries: (retries + 1) as u32,
                report: retries + 1 > 1,
                give_up: retries + 1 > MAX_RETRIES,
            }
        } else {
            RetryStep::Fail
        },
    }
}

/// What follows a download attempt that ended with `outcome`, `retries`
/// retries having been spent before it (the download is never attempted
/// once more than `MAX_RETRIES` are spent).
pub fn download_retry(retries: u32, outcome: &AttemptOutcome) -> (r: RetryStep)
    requires
        retries <= MAX_RETRIES,
    ensures
        r == spec_retry(retries, *outcome),
{
    let retryable = match outcome {
        AttemptOutcome::Done => {
            return RetryStep::Finished;
        },
        AttemptOutcome::HttpStatus(s) => *s == 429,
        AttemptOutcome::Network => true,
        AttemptOutcome::Other => false,
    };
    if !retryable {
        return RetryStep::Fail;
    }
    let spent = retries + 1;
    RetryStep::Retry { retries: spent, report: spent > 1, give_up: spent > MAX_RETRIES }
}

/// A download whose every attempt fails with a retryable error is
/// attempted once and retried `MAX_RETRIES` times, then given up: each
/// retry spends one more, and only the one past `MAX_RETRIES` gives up.
pub proof fn lemma_retries_are_bounded(retries: u32, o: AttemptOutcome)
    requires
        retries <= MAX_RETRIES,
        is_retryable(o),
    ensures
        spec_retry(retries, o) matches RetryStep::Retry { retries: n, give_up, .. } && n
            == retries + 1 && (give_up <==> retries == MAX_RETRIES),
{
}

/// Where a package is downloaded from and to.
#[derive(Debug)]
pub enum DownloadPlan {
    /// An OCI image at `reference`, unpacked into the install directory.
    Oci {
        /// The image reference.
        reference: String,
        /// The install directory.
        output: String,
    },
    /// A file at `url`, saved as the package's name in the install
    /// directory (and unpacked beside it where it is an archive).
    Direct {
        /// Where the file is fetched from.
        url: String,
        /// Where it is saved.
        output: String,
    },
}

/// Where a package is downloaded from: its GHCR image where it has one,
/// into the install directory; else its download URL, to a file named
/// after the package in the install directory.
pub fn download_plan(ghcr_pkg: Option<&str>, download_url: &str, install_dir: &str, pkg_name: &str) -> (r:
    DownloadPlan)
    ensures
        match ghcr_pkg {
            Some(g) => r matches DownloadPlan::Oci { reference, output } && reference@ == g@
                && output@ == install_dir@,
            None => r matches DownloadPlan::Direct { url, output } && url@ == download_url@
                && output@ == path_join(install_dir@, pkg_name@),
        },
{
    match ghcr_pkg {
        Some(g) => DownloadPlan::Oci {
            reference: string_of(&chars_of(g)),
            output: string_of(&chars_of(install_dir)),
        },
        None => DownloadPlan::Direct {
            url: string_of(&chars_of(download_url)),
            output: join_path(install_dir, pkg_name),
        },
    }
}

/// Whether a directory entry is hidden: its name starts with `.`.
pub open spec fn is_hidden(name: Seq<char>) -> bool {
    name.len() > 0 && name[0] == '.'
}

/// Whether an entry (its name, and whether it is a directory) is shown.
pub open spec fn shown(e: (String, bool)) -> bool {
    !is_hidden(e.0@)
}

/// The root that an archive's extraction implies, given the entries of
/// the install directory afterwards (name, and whether it is a directory):
/// where no root was configured and an archive was extracted, the one
/// directory that is there when, hidden entries aside, nothing else is.
pub open spec fn spec_auto_root(given: bool, extracted: bool, entries: Seq<(String, bool)>) -> Option<
    Seq<char>,
> {
    let v = entries.filter(|e: (String, bool)| shown(e));
    if !given && extracted && v.len() == 1 && v[0].1 {
        Some(v[0].0@)
    } else {
        None
    }
}

proof fn lemma_filter_lone(es: Seq<(String, bool)>, p: spec_fn((String, bool)) -> bool, i: int, n: int)
    requires
        0 <= n <= es.len(),
        0 <= i < es.len(),
        p(es[i]),
        forall|j: int| 0 <= j < es.len() && j != i ==> !p(#[trigger] es[j]),
    ensures
        es.subrange(0, n).filter(p) == if n <= i {
            Seq::<(String, bool)>::empty()
        } else {
            seq![es[i]]
        },
    decreases n,
{
    if n == 0 {
        reveal(Seq::filter);
        assert(es.subrange(0, 0) =~= Seq::<(String, bool)>::empty());
    } else {
        lemma_filter_lone(es, p, i, n - 1);
        lemma_filter_prefix(es, n - 1, p);
        if n - 1 == i {
            assert(Seq::<(String, bool)>::empty().push(es[i]) =~= seq![es[i]]);
        }
    }
}

/// The root an extraction implies: none where a root was configured or no
/// archive was extracted; else, where one entry that is not hidden is
/// there and it is a directory, that directory, whatever hidden entries lie
/// beside it; and whatever root is found is the name of a directory of the
/// entries, not hidden, beside which every entry that is not hidden is
/// that same directory.
pub proof fn lemma_auto_root_is_the_lone_directory(
    given: bool,
    extracted: bool,
    entries: Seq<(String, bool)>,
    i: int,
)
    ensures
        (given || !extracted) ==> spec_auto_root(given, extracted, entries) is None,
        (!given && extracted && 0 <= i < entries.len() && !is_hidden(entries[i].0@) && entries[i].1
            && forall|j: int|
            0 <= j < entries.len() && j != i ==> is_hidden((#[trigger] entries[j]).0@))
            ==> spec_auto_root(given, extracted, entries) == Some(entries[i].0@),
        spec_auto_root(given, extracted, entries) matches Some(d) ==> !given && extracted
            && !is_hidden(d) && (exists|k: int|
            0 <= k < entries.len() && (#[trigger] entries[k]).0@ == d && entries[k].1) && forall|
            j: int,
        |
            0 <= j < entries.len() && !is_hidden((#[trigger] entries[j]).0@) ==> entries[j].0@ == d
                && entries[j].1,
{
    let p = |e: (String, bool)| shown(e);
    let v = entries.filter(p);
    if !given && extracted && 0 <= i < entries.len() && !is_hidden(entries[i].0@) && entries[i].1
        && forall|j: int| 0 <= j < entries.len() && j != i ==> is_hidden((#[trigger] entries[j]).0@) {
        lemma_filter_lone(entries, p, i, entries.len() as int);
        assert(entries.subrange(0, entries.len() as int) =~= entries);
    }
    if v.len() == 1 {
        entries.lemma_filter_pred(p, 0);
        assert(v.contains(v[0]));
        entries.lemma_filter_contains_rev(p, v[0]);
        assert forall|j: int|
            0 <= j < entries.len() && !is_hidden((#[trigger] entries[j]).0@) implies entries[j]
            == v[0] by {
            entries.lemma_filter_contains(p, j);
            let x = choose|x: int| 0 <= x < v.len() && v[x] == entries[j];
        }
    }
}

/// The root directory an extracted archive wraps its contents in, where no
/// `extract_root` was given: archives conventionally put everything in one
/// versioned directory, so one left alone (no files beside it, hidden
/// entries aside) is taken as the root.
pub fn auto_extract_root(extract_root_given: bool, extracted: bool, entries: &Vec<(String, bool)>) -> (r:
    Option<String>)
    ensures
        match r {
            Some(d) => spec_auto_root(extract_root_given, extracted, entries@) == Some(d@),
            None => spec_auto_root(extract_root_given, extracted, entries@) is None,
        },
{
    let ghost p = |e: (String, bool)| shown(e);
    let ghost es = entries@;
    let mut n: usize = 0;
    let mut first: usize = 0;
    let mut i: usize = 0;
    while i < entries.len()
        invariant
            es == entries@,
            i <= es.len(),
            p == (|e: (String, bool)| shown(e)),
            n == es.subrange(0, i as int).filter(p).len(),
            n <= i,
            n > 0 ==> first < es.len() && es.subrange(0, i as int).filter(p)[0] == es[first as int],
        decreases es.len() - i,
    {
        proof {
            lemma_filter_prefix(es, i as int, p);
        }
        let name = chars_of(entries[i].0.as_str());
        let hidden = name.len() > 0 && name[0] == '.';
        if !hidden {
            if n == 0 {
                first = i;
            }
            n = n + 1;
        }
        i = i + 1;
    }
    assert(es.subrange(0, es.len() as int) =~= es);
    if !extract_root_given && extracted && n == 1 && entries[first].1 {
        Some(entries[first].0.clone())
    } else {
        None
    }
}

} // verus!
