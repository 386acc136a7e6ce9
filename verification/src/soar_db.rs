//! The package databases: which one a migration is for, the errors of
//! database operations, and how candidates for an installed package are
//! narrowed to those of the same package.

use vstd::prelude::*;

use crate::text::{chars_of, concat, find_any, first_of, opt_chars, seq_eq, slice_chars, string_of};

verus! {

/// The databases soar keeps.
#[derive(Clone, Copy, Debug)]
pub enum DbType {
    /// The installed packages.
    Core,
    /// The repositories' package metadata.
    Metadata,
}

/// Errors of database operations.
#[derive(Debug)]
pub enum DbError {
    /// The database could not be opened.
    ConnectionError(String),
    /// A query failed.
    QueryError(String),
    /// A migration failed.
    MigrationError(String),
    /// No such package.
    NotFound(String),
    /// The package is installed already.
    AlreadyInstalled(String),
    /// The database is inconsistent.
    IntegrityError(String),
    /// An I/O error, by its message.
    IoError(String),
}

impl DbError {
    /// The message of this error.
    pub open spec fn spec_message(&self) -> Seq<char> {
        match self {
            DbError::ConnectionError(m) => "Database connection failed: "@ + m@,
            DbError::QueryError(m) => "Database query failed: "@ + m@,
            DbError::MigrationError(m) => "Database migration failed: "@ + m@,
            DbError::NotFound(m) => "Package not found: "@ + m@,
            DbError::AlreadyInstalled(m) => "Package already installed: "@ + m@,
            DbError::IntegrityError(m) => "Database integrity error: "@ + m@,
            DbError::IoError(m) => ""@ + m@,
        }
    }

    /// The message shown to the user for this error.
    pub fn message(&self) -> (s: String)
        ensures
            s@ == self.spec_message(),
    {
        let (prefix, m) = match self {
            DbError::ConnectionError(m) => ("Database connection failed: ", m),
            DbError::QueryError(m) => ("Database query failed: ", m),
            DbError::MigrationError(m) => ("Database migration failed: ", m),
            DbError::NotFound(m) => ("Package not found: ", m),
            DbError::AlreadyInstalled(m) => ("Package already installed: ", m),
            DbError::IntegrityError(m) => ("Database integrity error: ", m),
            DbError::IoError(m) => ("", m),
        };
        string_of(&concat(&chars_of(prefix), &chars_of(m.as_str())))
    }
}

/// Whether a candidate's key (its package id or family) is `want`.
pub open spec fn key_is(keys: Seq<Option<String>>, i: int, want: Seq<char>) -> bool {
    opt_chars(keys[i]) == Some(want)
}

/// The first `n` candidates as far as narrowing to those whose key is
/// `wanted` keeps them; whether any carries it is asked of all of them.
pub open spec fn narrowed_upto(keys: Seq<Option<String>>, wanted: Option<Seq<char>>, n: int) -> Seq<
    int,
> {
    let all = Seq::new(n as nat, |i: int| i);
    match wanted {
        None => all,
        Some(w) => if exists|i: int| 0 <= i < keys.len() && key_is(keys, i, w) {
            all.filter(|i: int| key_is(keys, i, w))
        } else {
            all
        },
    }
}

/// The candidates that remain when narrowing to those whose key is
/// `wanted`: all of them where nothing is wanted or none carries it, else
/// exactly those that carry it, in order. Candidates are given by index.
pub open spec fn narrowed(keys: Seq<Option<String>>, wanted: Option<Seq<char>>) -> Seq<int> {
    narrowed_upto(keys, wanted, keys.len() as int)
}

fn key_matches(key: &Option<String>, want: &str) -> (b: bool)
    ensures
        b == (opt_chars(*key) == Some(want@)),
{
    match key {
        Some(k) => seq_eq(&chars_of(k.as_str()), &chars_of(want)),
        None => false,
    }
}

fn any_key(keys: &Vec<Option<String>>, want: &str) -> (b: bool)
    ensures
        b == exists|k: int| 0 <= k < keys@.len() && key_is(keys@, k, want@),
{
    let mut i: usize = 0;
    while i < keys.len()
        invariant
            i <= keys@.len(),
            forall|k: int| 0 <= k < i ==> !key_is(keys@, k, want@),
        decreases keys.len() - i,
    {
        if key_matches(&keys[i], want) {
            assert(key_is(keys@, i as int, want@));
            return true;
        }
        i = i + 1;
    }
    false
}

/// The indices of the candidates that remain when narrowing by key.
fn narrow(keys: &Vec<Option<String>>, wanted: Option<&str>) -> (r: Vec<usize>)
    ensures
        r@.map_values(|i: usize| i as int) == narrowed(
            keys@,
            match wanted {
                Some(w) => Some(w@),
                None => None,
            },
        ),
{
    let ghost wv = match wanted {
        Some(w) => Some(w@),
        None => None::<Seq<char>>,
    };
    let any = match wanted {
        Some(w) => any_key(keys, w),
        None => false,
    };
    let mut r: Vec<usize> = Vec::new();
    let mut i: usize = 0;
    assert(r@.map_values(|i: usize| i as int) =~= narrowed_upto(keys@, wv, 0));
    while i < keys.len()
        invariant
            i <= keys@.len(),
            wv == match wanted {
                Some(w) => Some(w@),
                None => None::<Seq<char>>,
            },
            any == match wanted {
                Some(w) => exists|k: int| 0 <= k < keys@.len() && key_is(keys@, k, w@),
                None => false,
            },
            r@.map_values(|i: usize| i as int) == narrowed_upto(keys@, wv, i as int),
        decreases keys.len() - i,
    {
        let ghost before = r@.map_values(|i: usize| i as int);
        let keep = match wanted {
            Some(w) => !any || key_matches(&keys[i], w),
            None => true,
        };
        if keep {
            r.push(i);
            assert(r@.map_values(|i: usize| i as int) =~= before.push(i as int));
        } else {
            assert(r@.map_values(|i: usize| i as int) =~= before);
        }
        proof {
            let a0 = Seq::new(i as nat, |k: int| k);
            assert(Seq::new((i + 1) as nat, |k: int| k) =~= a0.push(i as int));
            if let Some(w) = wv {
                a0.lemma_filter_push(i as int, |k: int| key_is(keys@, k, w));
            }
        }
        i = i + 1;
    }
    r
}

/// Narrow candidates, given by their package ids, to those carrying
/// `pkg_id`, unless none of them do: an id recorded at install time may
/// have disappeared from the metadata. Returns the indices of the
/// candidates that remain.
pub fn narrow_by_pkg_id(candidate_ids: &Vec<Option<String>>, pkg_id: Option<&str>) -> (r: Vec<
    usize,
>)
    ensures
        r@.map_values(|i: usize| i as int) == narrowed(
            candidate_ids@,
            match pkg_id {
                Some(w) => Some(w@),
                None => None,
            },
        ),
{
    narrow(candidate_ids, pkg_id)
}

/// Narrow candidates, given by their families, to those carrying
/// `pkg_family`, unless none of them do. Returns the indices of the
/// candidates that remain.
pub fn narrow_by_pkg_family(candidate_families: &Vec<Option<String>>, pkg_family: Option<&str>) -> (r:
    Vec<usize>)
    ensures
        r@.map_values(|i: usize| i as int) == narrowed(
            candidate_families@,
            match pkg_family {
                Some(w) => Some(w@),
                None => None,
            },
        ),
{
    narrow(candidate_families, pkg_family)
}

/// The elements a filter keeps lie where those of the sequence do.
proof fn lemma_filter_in_range(s: Seq<int>, p: spec_fn(int) -> bool, k: int, n: int)
    requires
        forall|i: int| 0 <= i < s.len() ==> 0 <= #[trigger] s[i] < n,
        0 <= k < s.filter(p).len(),
    ensures
        0 <= s.filter(p)[k] < n,
    decreases s.len(),
{
    reveal(Seq::filter);
    let rest = s.drop_last().filter(p);
    if k < rest.len() {
        lemma_filter_in_range(s.drop_last(), p, k, n);
    }
}

/// A filter keeps a strictly increasing sequence strictly increasing.
proof fn lemma_filter_increasing(s: Seq<int>, p: spec_fn(int) -> bool, a: int, b: int)
    requires
        forall|i: int, j: int| 0 <= i < j < s.len() ==> s[i] < s[j],
        0 <= a < b < s.filter(p).len(),
    ensures
        s.filter(p)[a] < s.filter(p)[b],
    decreases s.len(),
{
    reveal(Seq::filter);
    let d = s.drop_last();
    let rest = d.filter(p);
    if b < rest.len() {
        lemma_filter_increasing(d, p, a, b);
    } else {
        assert(s.filter(p)[b] == s.last());
        assert(forall|i: int| 0 <= i < d.len() ==> d[i] < s.last());
        lemma_filter_in_range_below(d, p, a, s.last());
    }
}

/// What a filter keeps of a sequence lying below `m` lies below `m`.
proof fn lemma_filter_in_range_below(s: Seq<int>, p: spec_fn(int) -> bool, k: int, m: int)
    requires
        forall|i: int| 0 <= i < s.len() ==> #[trigger] s[i] < m,
        0 <= k < s.filter(p).len(),
    ensures
        s.filter(p)[k] < m,
    decreases s.len(),
{
    reveal(Seq::filter);
    let rest = s.drop_last().filter(p);
    if k < rest.len() {
        lemma_filter_in_range_below(s.drop_last(), p, k, m);
    }
}

/// Narrowing never leaves a non-empty list of candidates empty, keeps the
/// candidates in their order, and, where any candidate carries the key
/// asked for, keeps exactly those that do.
pub proof fn lemma_narrowing(keys: Seq<Option<String>>, wanted: Option<Seq<char>>)
    ensures
        keys.len() > 0 ==> narrowed(keys, wanted).len() > 0,
        forall|a: int, b: int|
            0 <= a < b < narrowed(keys, wanted).len() ==> narrowed(keys, wanted)[a] < narrowed(
                keys,
                wanted,
            )[b],
        forall|k: int|
            0 <= k < narrowed(keys, wanted).len() ==> 0 <= #[trigger] narrowed(keys, wanted)[k]
                < keys.len(),
        wanted is Some && (exists|i: int| 0 <= i < keys.len() && key_is(keys, i, wanted->0))
            ==> forall|i: int|
            0 <= i < keys.len() ==> (narrowed(keys, wanted).contains(i) <==> key_is(
                keys,
                i,
                wanted->0,
            )),
{
    let all = Seq::new(keys.len(), |i: int| i);
    match wanted {
        None => {},
        Some(w) => {
            if exists|i: int| 0 <= i < keys.len() && key_is(keys, i, w) {
                let f = all.filter(|i: int| key_is(keys, i, w));
                let j = choose|i: int| 0 <= i < keys.len() && key_is(keys, i, w);
                assert(all[j] == j);
                all.lemma_filter_contains(|i: int| key_is(keys, i, w), j);
                assert(f.contains(j));
                assert forall|a: int, b: int| 0 <= a < b < f.len() implies f[a] < f[b] by {
                    lemma_filter_increasing(all, |i: int| key_is(keys, i, w), a, b);
                }
                assert forall|k: int| 0 <= k < f.len() implies 0 <= #[trigger] f[k] < keys.len() by {
                    all.lemma_filter_pred(|i: int| key_is(keys, i, w), k);
                    lemma_filter_in_range(all, |i: int| key_is(keys, i, w), k, keys.len() as int);
                }
                assert forall|i: int| 0 <= i < keys.len() implies (f.contains(i) <==> key_is(keys, i, w)) by {
                    if key_is(keys, i, w) {
                        assert(all[i] == i);
                        all.lemma_filter_contains(|i: int| key_is(keys, i, w), i);
                    }
                    if f.contains(i) {
                        let k = choose|k: int| 0 <= k < f.len() && f[k] == i;
                        all.lemma_filter_pred(|i: int| key_is(keys, i, w), k);
                    }
                }
            }
        },
    }
}

/// Whether a candidate supersedes an installed copy, for versions that do
/// not order against each other (two commit hashes, say), given whether
/// each version is one that orders: never where either is; else where both
/// keep a checksum and they differ, as a different checksum is a
/// different build. Without both checksums there is nothing to go on.
pub fn supersedes_unordered(
    offered_is_ordered: bool,
    offered_checksum: Option<&str>,
    current_is_ordered: bool,
    current_checksum: Option<&str>,
) -> (b: bool)
    ensures
        b == (!offered_is_ordered && !current_is_ordered && match (offered_checksum, current_checksum) {
            (Some(o), Some(h)) => o@ != h@,
            _ => false,
        }),
{
    if offered_is_ordered || current_is_ordered {
        return false;
    }
    match (offered_checksum, current_checksum) {
        (Some(o), Some(h)) => !seq_eq(&chars_of(o), &chars_of(h)),
        _ => false,
    }
}

/// A maintainer entry of the form `Name (contact)`: the name holds no
/// parenthesis and is followed by a space and `(`, the contact holds no
/// `)` and closes the entry with `)`.
pub open spec fn spec_name_and_contact(input: Seq<char>) -> Option<(Seq<char>, Seq<char>)> {
    let p = first_of(input, seq!['('], 0);
    let n = input.len();
    if 2 <= p && p < n && input[p - 1] == ' ' && n >= p + 3 && input[n - 1] == ')'
        && first_of(input, seq![')'], 0) >= p - 1 && first_of(input, seq![')'], p + 1) == n - 1 {
        Some((input.subrange(0, p - 1), input.subrange(p + 1, n - 1)))
    } else {
        None
    }
}

/// Take a maintainer entry `Name (contact)` apart.
pub fn extract_name_and_contact(input: &str) -> (r: Option<(String, String)>)
    ensures
        match spec_name_and_contact(input@) {
            Some((name, contact)) => r matches Some((a, b)) && a@ == name && b@ == contact,
            None => r is None,
        },
{
    let s = chars_of(input);
    let open = vec!['('];
    let close = vec![')'];
    assert(open@ =~= seq!['(']);
    assert(close@ =~= seq![')']);
    let n = s.len();
    let p = find_any(&s, &open, 0);
    if 2 <= p && p < n && s[p - 1] == ' ' && n - p >= 3 && s[n - 1] == ')' && find_any(&s, &close, 0)
        >= p - 1 && find_any(&s, &close, p + 1) == n - 1 {
        Some((string_of(&slice_chars(&s, 0, p - 1)), string_of(&slice_chars(&s, p + 1, n - 1))))
    } else {
        None
    }
}

} // verus!
