//! Character-sequence helpers shared by the parsers of this crate.
//!
//! Every function here works on `Vec<char>` and is specified over `Seq<char>`,
//! so the callers can state their own contracts in the same terms.

use vstd::prelude::*;
use vstd::utf8::{encode_scalar, encode_utf8};

verus! {

// ---------------------------------------------------------------------------
// Specifications
// ---------------------------------------------------------------------------

/// `s` begins with `p`.
pub open spec fn starts_with(s: Seq<char>, p: Seq<char>) -> bool {
    p.len() <= s.len() && s.subrange(0, p.len() as int) == p
}

/// `s` ends with `p`.
pub open spec fn ends_with(s: Seq<char>, p: Seq<char>) -> bool {
    p.len() <= s.len() && s.subrange(s.len() - p.len(), s.len() as int) == p
}

/// `p` occurs in `s` starting at position `i`.
pub open spec fn occurs_at(s: Seq<char>, p: Seq<char>, i: int) -> bool {
    0 <= i && i + p.len() <= s.len() && s.subrange(i, i + p.len()) == p
}

/// `p` occurs somewhere in `s`.
pub open spec fn contains_seq(s: Seq<char>, p: Seq<char>) -> bool {
    exists|i: int| occurs_at(s, p, i)
}

/// The pieces of `s[start..]` between occurrences of `c`, where the piece in
/// progress began at `start` and the scan stands at `i`.
pub open spec fn split_rec(s: Seq<char>, c: char, start: int, i: int) -> Seq<Seq<char>>
    decreases s.len() - i,
{
    if i >= s.len() {
        seq![s.subrange(start, s.len() as int)]
    } else if s[i] == c {
        seq![s.subrange(start, i)].add(split_rec(s, c, i + 1, i + 1))
    } else {
        split_rec(s, c, start, i + 1)
    }
}

/// The pieces of `s` between occurrences of `c`, as `str::split` with a char
/// yields them: there is always at least one piece.
pub open spec fn split(s: Seq<char>, c: char) -> Seq<Seq<char>> {
    split_rec(s, c, 0, 0)
}

/// `s` without one trailing carriage return.
pub open spec fn strip_cr(s: Seq<char>) -> Seq<char> {
    if s.len() > 0 && s.last() == '\r' {
        s.drop_last()
    } else {
        s
    }
}

/// The lines of `s`, as `str::lines` yields them: split at `\n`, a `\r`
/// before a `\n` dropped, and no empty line after a final line ending.
pub open spec fn lines(s: Seq<char>) -> Seq<Seq<char>> {
    let parts = split(s, '\n');
    let n = if parts.last().len() == 0 {
        parts.len() - 1
    } else {
        parts.len() as int
    };
    Seq::new(
        n as nat,
        |i: int|
            if i < parts.len() - 1 {
                strip_cr(parts[i])
            } else {
                parts[i]
            },
    )
}

/// `s` with every non-overlapping occurrence of `pat`, taken left to right,
/// replaced by `rep`, as `str::replace` does for a non-empty pattern.
pub open spec fn replace_all(s: Seq<char>, pat: Seq<char>, rep: Seq<char>) -> Seq<char>
    decreases s.len(),
{
    if pat.len() == 0 || s.len() < pat.len() {
        s
    } else if s.subrange(0, pat.len() as int) == pat {
        rep + replace_all(s.subrange(pat.len() as int, s.len() as int), pat, rep)
    } else {
        seq![s[0]] + replace_all(s.subrange(1, s.len() as int), pat, rep)
    }
}

/// The characters that `char::is_whitespace` accepts: the Unicode
/// `White_Space` property.
pub open spec fn is_ws(c: char) -> bool {
    ||| ('\t' <= c && c <= '\r')
    ||| c == ' '
    ||| c == '\u{85}'
    ||| c == '\u{a0}'
    ||| c == '\u{1680}'
    ||| ('\u{2000}' <= c && c <= '\u{200a}')
    ||| c == '\u{2028}'
    ||| c == '\u{2029}'
    ||| c == '\u{202f}'
    ||| c == '\u{205f}'
    ||| c == '\u{3000}'
}

/// The characters that `char::is_control` accepts: general category `Cc`.
pub open spec fn is_ctrl(c: char) -> bool {
    c <= '\u{1f}' || ('\u{7f}' <= c && c <= '\u{9f}')
}

/// An ASCII decimal digit.
pub open spec fn is_digit(c: char) -> bool {
    '0' <= c && c <= '9'
}

/// The index of the first character of `s` at or after `i` that is not
/// whitespace, or the length of `s` if there is none.
pub open spec fn first_non_ws(s: Seq<char>, i: int) -> int
    decreases s.len() - i,
{
    if i >= s.len() {
        s.len() as int
    } else if is_ws(s[i]) {
        first_non_ws(s, i + 1)
    } else {
        i
    }
}

/// The end of `s[..j]` once trailing whitespace is dropped.
pub open spec fn end_non_ws(s: Seq<char>, j: int) -> int
    decreases j,
{
    if j > 0 && is_ws(s[j - 1]) {
        end_non_ws(s, j - 1)
    } else {
        j
    }
}

/// `s` without leading and trailing whitespace, as `str::trim` gives it.
pub open spec fn trim(s: Seq<char>) -> Seq<char> {
    let a = first_non_ws(s, 0);
    if a >= s.len() {
        Seq::empty()
    } else {
        s.subrange(a, end_non_ws(s, s.len() as int))
    }
}

/// The end of `s[..j]` once trailing copies of `c` are dropped.
pub open spec fn end_while(s: Seq<char>, c: char, j: int) -> int
    decreases j,
{
    if j > 0 && s[j - 1] == c {
        end_while(s, c, j - 1)
    } else {
        j
    }
}

/// The start of `s[i..]` once leading copies of `c` are dropped.
pub open spec fn start_while(s: Seq<char>, c: char, i: int) -> int
    decreases s.len() - i,
{
    if i < s.len() && s[i] == c {
        start_while(s, c, i + 1)
    } else {
        i
    }
}

/// `s` without trailing copies of `c`, as `str::trim_end_matches(c)` gives it.
pub open spec fn trim_end_char(s: Seq<char>, c: char) -> Seq<char> {
    s.subrange(0, end_while(s, c, s.len() as int))
}

/// `s` without leading copies of `c`, as `str::trim_start_matches(c)` gives it.
pub open spec fn trim_start_char(s: Seq<char>, c: char) -> Seq<char> {
    s.subrange(start_while(s, c, 0), s.len() as int)
}

/// `s` without leading or trailing copies of `c`, as `str::trim_matches(c)`
/// gives it.
pub open spec fn trim_char(s: Seq<char>, c: char) -> Seq<char> {
    trim_end_char(trim_start_char(s, c), c)
}

/// The pieces of `parts` joined with `sep` between them.
pub open spec fn join(parts: Seq<Seq<char>>, sep: Seq<char>) -> Seq<char>
    decreases parts.len(),
{
    if parts.len() == 0 {
        Seq::empty()
    } else if parts.len() == 1 {
        parts[0]
    } else {
        join(parts.drop_last(), sep) + sep + parts.last()
    }
}

/// The index of the first whitespace character of `s` at or after `i`, or
/// the length of `s`.
pub open spec fn first_ws(s: Seq<char>, i: int) -> int
    decreases s.len() - i,
{
    if i >= s.len() {
        s.len() as int
    } else if is_ws(s[i]) {
        i
    } else {
        first_ws(s, i + 1)
    }
}

/// The first whitespace-separated word of `s`, as
/// `str::split_whitespace().next()` yields it.
pub open spec fn first_word(s: Seq<char>) -> Option<Seq<char>> {
    let a = first_non_ws(s, 0);
    if a >= s.len() {
        None
    } else {
        Some(s.subrange(a, first_ws(s, a)))
    }
}

/// Where the piece of `s` after the last `c` in `s[i..]` starts, given that
/// the piece in progress began at `start`.
pub open spec fn last_start(s: Seq<char>, c: char, start: int, i: int) -> int
    decreases s.len() - i,
{
    if i >= s.len() {
        start
    } else if s[i] == c {
        last_start(s, c, i + 1, i + 1)
    } else {
        last_start(s, c, start, i + 1)
    }
}

/// The part of `s` after its last `c`, or all of `s`, as
/// `str::rsplit(c).next()` yields it.
pub open spec fn after_last(s: Seq<char>, c: char) -> Seq<char> {
    s.subrange(last_start(s, c, 0, 0), s.len() as int)
}

/// The whitespace-separated words of `s[i..]`, as `str::split_whitespace`
/// yields them.
pub open spec fn words_from(s: Seq<char>, i: int) -> Seq<Seq<char>>
    decreases s.len() - i,
{
    let a = first_non_ws(s, i);
    if i < 0 || a >= s.len() || first_ws(s, a) <= i || first_ws(s, a) > s.len() {
        Seq::empty()
    } else {
        seq![s.subrange(a, first_ws(s, a))] + words_from(s, first_ws(s, a))
    }
}

/// The whitespace-separated words of `s`.
pub open spec fn words(s: Seq<char>) -> Seq<Seq<char>> {
    words_from(s, 0)
}

/// The character sequences held by a sequence of character vectors.
pub open spec fn rows(r: Seq<Vec<char>>) -> Seq<Seq<char>> {
    r.map_values(|v: Vec<char>| v@)
}

/// The character sequences held by a sequence of strings.
pub open spec fn texts(r: Seq<String>) -> Seq<Seq<char>> {
    r.map_values(|s: String| s@)
}

/// The first position at or after `i` where `p` occurs in `s`.
pub open spec fn first_occurrence(s: Seq<char>, p: Seq<char>, i: int) -> Option<int>
    decreases s.len() + 1 - i,
{
    if i < 0 || i + p.len() > s.len() {
        None
    } else if occurs_at(s, p, i) {
        Some(i)
    } else {
        first_occurrence(s, p, i + 1)
    }
}

/// The index of the first character of `s` at or after `i` that is one of
/// `cs`, or the length of `s`.
pub open spec fn first_of(s: Seq<char>, cs: Seq<char>, i: int) -> int
    decreases s.len() - i,
{
    if i >= s.len() {
        s.len() as int
    } else if cs.contains(s[i]) {
        i
    } else {
        first_of(s, cs, i + 1)
    }
}

/// `c` with ASCII capitals made small, as `char::to_ascii_lowercase` does.
pub open spec fn ascii_lower(c: char) -> char {
    if 'A' <= c && c <= 'Z' {
        ((c as u32) + 32) as char
    } else {
        c
    }
}

/// `a` and `b` are equal but for the case of ASCII letters.
pub open spec fn eq_ignore_ascii_case(a: Seq<char>, b: Seq<char>) -> bool {
    a.len() == b.len() && forall|i: int| 0 <= i < a.len() ==> ascii_lower(#[trigger] a[i]) == ascii_lower(b[i])
}

/// `s` starts with `p`, but for the case of ASCII letters.
pub open spec fn starts_with_ci(s: Seq<char>, p: Seq<char>) -> bool {
    s.len() >= p.len() && eq_ignore_ascii_case(s.subrange(0, p.len() as int), p)
}

/// `s` ends with `p`, but for the case of ASCII letters.
pub open spec fn ends_with_ci(s: Seq<char>, p: Seq<char>) -> bool {
    s.len() >= p.len() && eq_ignore_ascii_case(s.subrange(s.len() - p.len(), s.len() as int), p)
}

/// The characters of an optional string.
pub open spec fn opt_chars(o: Option<String>) -> Option<Seq<char>> {
    match o {
        Some(s) => Some(s@),
        None => None,
    }
}

/// The characters of an optional string slice.
pub open spec fn opt_str(o: Option<&str>) -> Option<Seq<char>> {
    match o {
        Some(s) => Some(s@),
        None => None,
    }
}

/// Every character of `s` is ASCII.
pub open spec fn all_ascii(s: Seq<char>) -> bool {
    forall|i: int| 0 <= i < s.len() ==> (#[trigger] s[i] as u32) < 0x80
}

/// The lowercase form of `s` that `str::to_lowercase` computes.
pub uninterp spec fn lowercase(s: Seq<char>) -> Seq<char>;

// ---------------------------------------------------------------------------
// Lemmas
// ---------------------------------------------------------------------------

/// The number of bytes UTF-8 takes for `c`.
pub open spec fn utf8_width(c: char) -> nat {
    if (c as u32) < 0x80 {
        1
    } else if (c as u32) < 0x800 {
        2
    } else if (c as u32) < 0x10000 {
        3
    } else {
        4
    }
}

/// The number of bytes UTF-8 takes for `s`.
pub open spec fn utf8_len(s: Seq<char>) -> nat
    decreases s.len(),
{
    if s.len() == 0 {
        0
    } else {
        utf8_width(s[0]) + utf8_len(s.drop_first())
    }
}

/// The UTF-8 encoding of `s` is `utf8_len(s)` bytes long.
pub proof fn lemma_utf8_len(s: Seq<char>)
    ensures
        encode_utf8(s).len() == utf8_len(s),
    decreases s.len(),
{
    if s.len() > 0 {
        lemma_utf8_len(s.drop_first());
        let c = s[0];
        vstd::utf8::char_is_scalar(c);
        assert(encode_scalar(c as u32).len() == utf8_width(c));
    }
}

/// Filtering a prefix one element longer adds that element where it passes.
pub proof fn lemma_filter_prefix<A>(s: Seq<A>, i: int, p: spec_fn(A) -> bool)
    requires
        0 <= i < s.len(),
    ensures
        s.subrange(0, i + 1).filter(p) == if p(s[i]) {
            s.subrange(0, i).filter(p).push(s[i])
        } else {
            s.subrange(0, i).filter(p)
        },
{
    reveal(Seq::filter);
    assert(s.subrange(0, i + 1).drop_last() =~= s.subrange(0, i));
}

/// `first_of` lands within `[i, len]`, on one of `cs` where it is short of
/// the end, past none of them.
pub proof fn lemma_first_of(s: Seq<char>, cs: Seq<char>, i: int)
    requires
        0 <= i <= s.len(),
    ensures
        i <= first_of(s, cs, i) <= s.len(),
        first_of(s, cs, i) < s.len() ==> cs.contains(s[first_of(s, cs, i)]),
        forall|k: int| i <= k < first_of(s, cs, i) ==> !cs.contains(#[trigger] s[k]),
    decreases s.len() - i,
{
    if i < s.len() && !cs.contains(s[i]) {
        lemma_first_of(s, cs, i + 1);
    }
}

/// Splitting `p + b` past `p` is splitting `b`.
pub proof fn lemma_split_shift(p: Seq<char>, b: Seq<char>, c: char, start: int, i: int)
    requires
        0 <= start <= i <= b.len(),
    ensures
        split_rec(p + b, c, p.len() + start, p.len() + i) == split_rec(b, c, start, i),
    decreases b.len() - i,
{
    let s = p + b;
    if i < b.len() {
        assert(s[p.len() + i] == b[i]);
        if b[i] == c {
            lemma_split_shift(p, b, c, i + 1, i + 1);
            assert(s.subrange(p.len() + start, p.len() + i) =~= b.subrange(start, i));
        } else {
            lemma_split_shift(p, b, c, start, i + 1);
        }
    } else {
        assert(s.subrange(p.len() + start, s.len() as int) =~= b.subrange(start, b.len() as int));
    }
}

/// Scanning a run free of `c` does not split it.
pub proof fn lemma_split_scan(s: Seq<char>, c: char, start: int, i: int, j: int)
    requires
        0 <= start <= i <= j <= s.len(),
        forall|k: int| i <= k < j ==> s[k] != c,
    ensures
        split_rec(s, c, start, i) == split_rec(s, c, start, j),
    decreases j - i,
{
    if i < j {
        lemma_split_scan(s, c, start, i + 1, j);
    }
}

/// A piece free of `c`, then `c`, then `b`, splits into that piece and the
/// pieces of `b`.
pub proof fn lemma_split_cons(a: Seq<char>, c: char, b: Seq<char>)
    requires
        !a.contains(c),
    ensures
        split(a + seq![c] + b, c) == seq![a] + split(b, c),
{
    let p = a + seq![c];
    let s = p + b;
    assert(s == a + seq![c] + b);
    assert forall|k: int| 0 <= k < a.len() implies s[k] != c by {
        assert(s[k] == a[k]);
        if a[k] == c {
            assert(a.contains(c));
        }
    }
    lemma_split_scan(s, c, 0, 0, a.len() as int);
    assert(s[a.len() as int] == c);
    assert(s.subrange(0, a.len() as int) =~= a);
    lemma_split_shift(p, b, c, 0, 0);
}

/// A piece free of `c` splits into itself.
pub proof fn lemma_split_single(a: Seq<char>, c: char)
    requires
        !a.contains(c),
    ensures
        split(a, c) == seq![a],
{
    assert forall|k: int| 0 <= k < a.len() implies a[k] != c by {
        if a[k] == c {
            assert(a.contains(c));
        }
    }
    lemma_split_scan(a, c, 0, 0, a.len() as int);
    assert(a.subrange(0, a.len() as int) =~= a);
}

/// What `first_occurrence` finds is an occurrence at or after `i`.
pub proof fn lemma_first_occurrence(s: Seq<char>, p: Seq<char>, i: int)
    ensures
        first_occurrence(s, p, i) matches Some(k) ==> i <= k && k + p.len() <= s.len()
            && occurs_at(s, p, k),
    decreases s.len() + 1 - i,
{
    if !(i < 0 || i + p.len() > s.len()) && !occurs_at(s, p, i) {
        lemma_first_occurrence(s, p, i + 1);
    }
}

/// `first_non_ws` stays within `[i, len]` and lands on a non-space.
pub proof fn lemma_first_non_ws(s: Seq<char>, i: int)
    requires
        0 <= i <= s.len(),
    ensures
        i <= first_non_ws(s, i) <= s.len(),
        first_non_ws(s, i) < s.len() ==> !is_ws(s[first_non_ws(s, i)]),
        forall|k: int| i <= k < first_non_ws(s, i) ==> is_ws(#[trigger] s[k]),
    decreases s.len() - i,
{
    if i < s.len() && is_ws(s[i]) {
        lemma_first_non_ws(s, i + 1);
    }
}

/// `end_non_ws` stays within `[0, j]`.
pub proof fn lemma_end_non_ws(s: Seq<char>, j: int)
    requires
        0 <= j <= s.len(),
    ensures
        0 <= end_non_ws(s, j) <= j,
        end_non_ws(s, j) > 0 ==> !is_ws(s[end_non_ws(s, j) - 1]),
        forall|k: int| end_non_ws(s, j) <= k < j ==> is_ws(#[trigger] s[k]),
    decreases j,
{
    if j > 0 && is_ws(s[j - 1]) {
        lemma_end_non_ws(s, j - 1);
    }
}

// ---------------------------------------------------------------------------
// Executable helpers
// ---------------------------------------------------------------------------

/// The characters of `s`, in order.
pub fn chars_of(s: &str) -> (v: Vec<char>)
    ensures
        v@ == s@,
{
    let mut v: Vec<char> = Vec::new();
    for c in it: s.chars()
        invariant
            v@ == it.seq().take(it.index() as int),
            it.seq() == s@,
    {
        v.push(c);
    }
    v
}

/// `String::from_iter` over the characters of `v`. Trusted to give the
/// string that holds exactly those characters, in order, as collecting
/// characters into a `String` is documented to do.
#[verifier::external_body]
pub(crate) fn string_of(v: &Vec<char>) -> (s: String)
    ensures
        s@ == v@,
{
    String::from_iter(v)
}

/// `str::to_lowercase`. Trusted to give the lowercase form that the
/// contract names `lowercase`: Unicode's mapping, which takes tables to
/// state, so of text beyond ASCII nothing more is said. On ASCII text it is
/// what `to_ascii_lowercase` gives (its documentation sends callers to
/// `to_lowercase` for the same on non-ASCII text): `A`-`Z` become
/// `a`-`z`, every other character stays.
#[verifier::external_body]
pub(crate) fn to_lowercase(s: &str) -> (r: String)
    ensures
        r@ == lowercase(s@),
        all_ascii(s@) ==> r@ == s@.map_values(|c: char| ascii_lower(c)),
{
    s.to_lowercase()
}

/// The lowercase form of `v`, as `str::to_lowercase` gives it.
pub fn lower_chars(v: &Vec<char>) -> (r: Vec<char>)
    ensures
        r@ == lowercase(v@),
        all_ascii(v@) ==> r@ == v@.map_values(|c: char| ascii_lower(c)),
{
    let s = string_of(v);
    let l = to_lowercase(s.as_str());
    chars_of(l.as_str())
}

/// Whether `c` is whitespace.
pub fn is_whitespace(c: char) -> (b: bool)
    ensures
        b == is_ws(c),
{
    ('\t' <= c && c <= '\r') || c == ' ' || c == '\u{85}' || c == '\u{a0}' || c == '\u{1680}'
        || ('\u{2000}' <= c && c <= '\u{200a}') || c == '\u{2028}' || c == '\u{2029}' || c
        == '\u{202f}' || c == '\u{205f}' || c == '\u{3000}'
}

/// Whether `c` is a control character.
pub fn is_control(c: char) -> (b: bool)
    ensures
        b == is_ctrl(c),
{
    c <= '\u{1f}' || ('\u{7f}' <= c && c <= '\u{9f}')
}

/// Whether `a` and `b` hold the same characters.
pub fn seq_eq(a: &[char], b: &[char]) -> (r: bool)
    ensures
        r == (a@ == b@),
{
    if a.len() != b.len() {
        return false;
    }
    let mut i: usize = 0;
    while i < a.len()
        invariant
            a@.len() == b@.len(),
            i <= a@.len(),
            forall|k: int| 0 <= k < i ==> a@[k] == b@[k],
        decreases a.len() - i,
    {
        if a[i] != b[i] {
            return false;
        }
        i = i + 1;
    }
    assert(a@ =~= b@);
    true
}

/// Whether `p` occurs in `s` at position `i`.
pub fn matches_at(s: &[char], p: &[char], i: usize) -> (r: bool)
    ensures
        r == occurs_at(s@, p@, i as int),
{
    if i > s.len() || p.len() > s.len() - i {
        return false;
    }
    let mut k: usize = 0;
    while k < p.len()
        invariant
            i + p@.len() <= s@.len(),
            s@.len() == s.len(),
            k <= p@.len(),
            forall|m: int| 0 <= m < k ==> s@[i + m] == p@[m],
        decreases p.len() - k,
    {
        if s[i + k] != p[k] {
            assert(s@.subrange(i as int, i + p@.len())[k as int] != p@[k as int]);
            return false;
        }
        k = k + 1;
    }
    assert(s@.subrange(i as int, i + p@.len()) =~= p@);
    true
}

/// The first position at or after `i` where `p` occurs in `s`.
pub fn find_seq_from(s: &[char], p: &[char], i: usize) -> (r: Option<usize>)
    ensures
        match r {
            Some(k) => first_occurrence(s@, p@, i as int) == Some(k as int),
            None => first_occurrence(s@, p@, i as int) is None,
        },
{
    let mut k = i;
    while k <= s.len() && p.len() <= s.len() - k
        invariant
            i <= k,
            s@.len() == s.len(),
            first_occurrence(s@, p@, k as int) == first_occurrence(s@, p@, i as int),
        decreases s.len() + 1 - k,
    {
        if matches_at(s, p, k) {
            return Some(k);
        }
        assert(p@.len() > 0) by {
            if p@.len() == 0 {
                assert(s@.subrange(k as int, k as int) =~= p@);
            }
        }
        k = k + 1;
    }
    None
}

/// The index of the first character of `s` at or after `i` that is one of
/// `cs`, or the length of `s`.
pub fn find_any(s: &[char], cs: &[char], i: usize) -> (r: usize)
    requires
        i <= s@.len(),
    ensures
        r as int == first_of(s@, cs@, i as int),
        i <= r <= s@.len(),
{
    let mut k = i;
    while k < s.len()
        invariant
            i <= k <= s@.len(),
            first_of(s@, cs@, k as int) == first_of(s@, cs@, i as int),
        decreases s.len() - k,
    {
        if has_char(cs, s[k]) {
            return k;
        }
        k = k + 1;
    }
    k
}

/// Whether the UTF-8 encoding of `s` is longer than `n` bytes, as
/// `s.len() > n` asks.
pub fn utf8_longer_than(s: &str, n: usize) -> (b: bool)
    ensures
        b == (encode_utf8(s@).len() > n),
{
    proof {
        lemma_utf8_len(s@);
    }
    let v = chars_of(s);
    let mut count: usize = 0;
    let mut i: usize = 0;
    assert(v@.subrange(0, v@.len() as int) =~= v@);
    while i < v.len()
        invariant
            i <= v@.len(),
            v@ == s@,
            encode_utf8(s@).len() == utf8_len(s@),
            count <= n,
            count + utf8_len(v@.subrange(i as int, v@.len() as int)) == utf8_len(s@),
        decreases v.len() - i,
    {
        let c = v[i];
        assert(v@.subrange(i as int, v@.len() as int).drop_first() =~= v@.subrange(
            i + 1,
            v@.len() as int,
        ));
        let w: usize = if (c as u32) < 0x80 {
            1
        } else if (c as u32) < 0x800 {
            2
        } else if (c as u32) < 0x10000 {
            3
        } else {
            4
        };
        assert(w == utf8_width(c));
        assert(utf8_len(v@.subrange(i as int, v@.len() as int)) == w + utf8_len(
            v@.subrange(i + 1, v@.len() as int),
        ));
        if w > n - count {
            return true;
        }
        count = count + w;
        i = i + 1;
    }
    assert(v@.subrange(i as int, v@.len() as int) =~= Seq::<char>::empty());
    false
}

/// `c` with ASCII capitals made small.
pub fn to_ascii_lower(c: char) -> (r: char)
    ensures
        r == ascii_lower(c),
{
    if 'A' <= c && c <= 'Z' {
        let b: u8 = (c as u8) + 32;
        b as char
    } else {
        c
    }
}

/// Whether `a` and `b` are equal but for the case of ASCII letters.
pub fn same_ignoring_ascii_case(a: &[char], b: &[char]) -> (r: bool)
    ensures
        r == eq_ignore_ascii_case(a@, b@),
{
    if a.len() != b.len() {
        return false;
    }
    let mut i: usize = 0;
    while i < a.len()
        invariant
            a@.len() == b@.len(),
            i <= a@.len(),
            forall|k: int| 0 <= k < i ==> ascii_lower(#[trigger] a@[k]) == ascii_lower(b@[k]),
        decreases a.len() - i,
    {
        if to_ascii_lower(a[i]) != to_ascii_lower(b[i]) {
            return false;
        }
        i = i + 1;
    }
    true
}

/// Whether `s` starts with `p`, but for the case of ASCII letters.
pub fn has_prefix_ci(s: &[char], p: &[char]) -> (r: bool)
    ensures
        r == starts_with_ci(s@, p@),
{
    if p.len() > s.len() {
        return false;
    }
    same_ignoring_ascii_case(&slice_chars(s, 0, p.len()), p)
}

/// Whether `s` ends with `p`, but for the case of ASCII letters.
pub fn has_suffix_ci(s: &[char], p: &[char]) -> (r: bool)
    ensures
        r == ends_with_ci(s@, p@),
{
    if p.len() > s.len() {
        return false;
    }
    same_ignoring_ascii_case(&slice_chars(s, s.len() - p.len(), s.len()), p)
}

/// The non-empty ones of `parts`, in order.
pub fn nonempty_rows(parts: &Vec<Vec<char>>) -> (r: Vec<Vec<char>>)
    ensures
        rows(r@) == rows(parts@).filter(|p: Seq<char>| p.len() > 0),
{
    let ghost ps = rows(parts@);
    let mut r: Vec<Vec<char>> = Vec::new();
    let mut i: usize = 0;
    while i < parts.len()
        invariant
            i <= parts@.len(),
            ps == rows(parts@),
            rows(r@) == ps.subrange(0, i as int).filter(|p: Seq<char>| p.len() > 0),
        decreases parts.len() - i,
    {
        proof {
            lemma_filter_prefix(ps, i as int, |p: Seq<char>| p.len() > 0);
        }
        assert(ps[i as int] == parts@[i as int]@);
        if parts[i].len() > 0 {
            let ghost before = rows(r@);
            r.push(parts[i].clone());
            assert(rows(r@) =~= before.push(ps[i as int]));
        }
        i = i + 1;
    }
    assert(ps.subrange(0, ps.len() as int) =~= ps);
    r
}

/// Whether `s` starts with `p`.
pub fn has_prefix(s: &[char], p: &[char]) -> (r: bool)
    ensures
        r == starts_with(s@, p@),
{
    matches_at(s, p, 0)
}

/// Whether `s` ends with `p`.
pub fn has_suffix(s: &[char], p: &[char]) -> (r: bool)
    ensures
        r == ends_with(s@, p@),
{
    if p.len() > s.len() {
        return false;
    }
    matches_at(s, p, s.len() - p.len())
}

/// Whether `p` occurs anywhere in `s`.
pub fn contains(s: &[char], p: &[char]) -> (r: bool)
    ensures
        r == contains_seq(s@, p@),
{
    let mut i: usize = 0;
    while i < s.len()
        invariant
            i <= s@.len(),
            forall|k: int| 0 <= k < i ==> !occurs_at(s@, p@, k),
        decreases s.len() - i,
    {
        if matches_at(s, p, i) {
            return true;
        }
        i = i + 1;
    }
    if matches_at(s, p, i) {
        return true;
    }
    assert forall|k: int| !occurs_at(s@, p@, k) by {
        if 0 <= k < i {
        } else if k >= i {
        }
    }
    false
}

/// Whether `c` occurs in `s`.
pub fn has_char(s: &[char], c: char) -> (r: bool)
    ensures
        r == s@.contains(c),
{
    let mut i: usize = 0;
    while i < s.len()
        invariant
            i <= s@.len(),
            forall|k: int| 0 <= k < i ==> s@[k] != c,
        decreases s.len() - i,
    {
        if s[i] == c {
            return true;
        }
        i = i + 1;
    }
    false
}

/// `s[from..to]` as a vector.
pub fn slice_chars(s: &[char], from: usize, to: usize) -> (r: Vec<char>)
    requires
        from <= to <= s@.len(),
    ensures
        r@ == s@.subrange(from as int, to as int),
{
    let mut r: Vec<char> = Vec::new();
    let mut i = from;
    while i < to
        invariant
            from <= i <= to <= s@.len(),
            r@ == s@.subrange(from as int, i as int),
        decreases to - i,
    {
        r.push(s[i]);
        i = i + 1;
        assert(r@ =~= s@.subrange(from as int, i as int));
    }
    r
}

/// `a` followed by `b`.
pub fn concat(a: &[char], b: &[char]) -> (r: Vec<char>)
    ensures
        r@ == a@ + b@,
{
    let mut r = slice_chars(a, 0, a.len());
    let mut i: usize = 0;
    while i < b.len()
        invariant
            i <= b@.len(),
            r@ == a@ + b@.subrange(0, i as int),
        decreases b.len() - i,
    {
        r.push(b[i]);
        i = i + 1;
        assert(r@ =~= a@ + b@.subrange(0, i as int));
    }
    assert(b@.subrange(0, b@.len() as int) =~= b@);
    r
}

/// Appends all of `b` to `r`.
pub fn push_all(r: &mut Vec<char>, b: &[char])
    ensures
        final(r)@ == old(r)@ + b@,
{
    let mut i: usize = 0;
    while i < b.len()
        invariant
            i <= b@.len(),
            r@ == old(r)@ + b@.subrange(0, i as int),
        decreases b.len() - i,
    {
        r.push(b[i]);
        i = i + 1;
        assert(r@ =~= old(r)@ + b@.subrange(0, i as int));
    }
    assert(b@.subrange(0, b@.len() as int) =~= b@);
}

/// `s` without leading and trailing whitespace.
pub fn trim_chars(s: &[char]) -> (r: Vec<char>)
    ensures
        r@ == trim(s@),
{
    let mut a: usize = 0;
    while a < s.len() && is_whitespace(s[a])
        invariant
            a <= s@.len(),
            first_non_ws(s@, a as int) == first_non_ws(s@, 0),
        decreases s.len() - a,
    {
        a = a + 1;
    }
    if a >= s.len() {
        return Vec::new();
    }
    let mut b: usize = s.len();
    while b > 0 && is_whitespace(s[b - 1])
        invariant
            a < b <= s@.len(),
            !is_ws(s@[a as int]),
            end_non_ws(s@, b as int) == end_non_ws(s@, s@.len() as int),
        decreases b,
    {
        b = b - 1;
    }
    slice_chars(s, a, b)
}

/// `s` without trailing copies of `c`.
pub fn trim_end_chars(s: &[char], c: char) -> (r: Vec<char>)
    ensures
        r@ == trim_end_char(s@, c),
{
    let mut j = s.len();
    while j > 0 && s[j - 1] == c
        invariant
            j <= s@.len(),
            end_while(s@, c, j as int) == end_while(s@, c, s@.len() as int),
        decreases j,
    {
        j = j - 1;
    }
    slice_chars(s, 0, j)
}

/// `s` without leading copies of `c`.
pub fn trim_start_chars(s: &[char], c: char) -> (r: Vec<char>)
    ensures
        r@ == trim_start_char(s@, c),
{
    let mut i: usize = 0;
    while i < s.len() && s[i] == c
        invariant
            i <= s@.len(),
            start_while(s@, c, i as int) == start_while(s@, c, 0),
        decreases s.len() - i,
    {
        i = i + 1;
    }
    slice_chars(s, i, s.len())
}

/// `s` without leading or trailing copies of `c`.
pub fn trim_chars_of(s: &[char], c: char) -> (r: Vec<char>)
    ensures
        r@ == trim_char(s@, c),
{
    let t = trim_start_chars(s, c);
    trim_end_chars(&t, c)
}

/// The characters of each of `v`, in order.
pub fn rows_of(v: &[String]) -> (r: Vec<Vec<char>>)
    ensures
        rows(r@) == texts(v@),
{
    let mut r: Vec<Vec<char>> = Vec::new();
    let mut i: usize = 0;
    while i < v.len()
        invariant
            i <= v@.len(),
            rows(r@) == texts(v@.subrange(0, i as int)),
        decreases v.len() - i,
    {
        let ghost before = rows(r@);
        let c = chars_of(v[i].as_str());
        assert(c@ == v@[i as int]@);
        r.push(c);
        assert(rows(r@) =~= before.push(c@));
        assert(texts(v@.subrange(0, i + 1)) =~= texts(v@.subrange(0, i as int)).push(v@[i as int]@));
        i = i + 1;
    }
    assert(v@.subrange(0, v@.len() as int) =~= v@);
    r
}

/// The pieces of `parts` joined with `sep`.
pub fn join_chars(parts: &Vec<Vec<char>>, sep: &[char]) -> (r: Vec<char>)
    ensures
        r@ == join(rows(parts@), sep@),
{
    let mut r: Vec<char> = Vec::new();
    let mut i: usize = 0;
    while i < parts.len()
        invariant
            i <= parts@.len(),
            r@ == join(rows(parts@).subrange(0, i as int), sep@),
        decreases parts.len() - i,
    {
        let ghost before = rows(parts@).subrange(0, i as int);
        let ghost after = rows(parts@).subrange(0, i + 1);
        assert(after.drop_last() =~= before);
        assert(after.last() == parts@[i as int]@);
        if i > 0 {
            push_all(&mut r, sep);
        } else {
            assert(r@ =~= Seq::<char>::empty());
        }
        push_all(&mut r, parts[i].as_slice());
        i = i + 1;
        if i == 1 {
            assert(r@ =~= after[0]);
        }
    }
    assert(rows(parts@).subrange(0, parts@.len() as int) =~= rows(parts@));
    r
}

/// The first whitespace-separated word of `s`, by its bounds.
pub fn first_word_bounds(s: &[char]) -> (r: Option<(usize, usize)>)
    ensures
        match r {
            Some((a, b)) => a <= b <= s@.len() && first_word(s@) == Some(
                s@.subrange(a as int, b as int),
            ),
            None => first_word(s@) is None,
        },
{
    let mut a: usize = 0;
    while a < s.len() && is_whitespace(s[a])
        invariant
            a <= s@.len(),
            first_non_ws(s@, a as int) == first_non_ws(s@, 0),
        decreases s.len() - a,
    {
        a = a + 1;
    }
    if a >= s.len() {
        return None;
    }
    let mut b = a;
    while b < s.len() && !is_whitespace(s[b])
        invariant
            a <= b <= s@.len(),
            first_ws(s@, b as int) == first_ws(s@, a as int),
        decreases s.len() - b,
    {
        b = b + 1;
    }
    Some((a, b))
}

/// Where `s[lo..hi]` starts once its part up to the last `c` is dropped.
pub fn after_last_window(s: &[char], lo: usize, hi: usize, c: char) -> (r: usize)
    requires
        lo <= hi <= s@.len(),
    ensures
        lo <= r <= hi,
        s@.subrange(r as int, hi as int) == after_last(s@.subrange(lo as int, hi as int), c),
{
    let ghost w = s@.subrange(lo as int, hi as int);
    let mut start = lo;
    let mut i = lo;
    while i < hi
        invariant
            lo <= start <= i <= hi <= s@.len(),
            w == s@.subrange(lo as int, hi as int),
            last_start(w, c, start - lo, i - lo) == last_start(w, c, 0, 0),
        decreases hi - i,
    {
        assert(w[i - lo] == s@[i as int]);
        if s[i] == c {
            start = i + 1;
        }
        i = i + 1;
    }
    proof {
        lemma_last_start_bounds(w, c, 0, 0);
    }
    assert(s@.subrange(start as int, hi as int) =~= w.subrange(start - lo, w.len() as int));
    start
}

/// `last_start` stays within `[start, len]`.
pub proof fn lemma_last_start_bounds(s: Seq<char>, c: char, start: int, i: int)
    requires
        0 <= start <= i <= s.len(),
    ensures
        start <= last_start(s, c, start, i) <= s.len(),
    decreases s.len() - i,
{
    if i < s.len() {
        if s[i] == c {
            lemma_last_start_bounds(s, c, i + 1, i + 1);
        } else {
            lemma_last_start_bounds(s, c, start, i + 1);
        }
    }
}

/// The bounds of `s[lo..hi]` once leading and trailing copies of `c` are
/// dropped.
pub fn trim_window(s: &[char], lo: usize, hi: usize, c: char) -> (r: (usize, usize))
    requires
        lo <= hi <= s@.len(),
    ensures
        lo <= r.0 <= r.1 <= hi,
        s@.subrange(r.0 as int, r.1 as int) == trim_char(s@.subrange(lo as int, hi as int), c),
{
    let ghost w = s@.subrange(lo as int, hi as int);
    let mut a = lo;
    while a < hi && s[a] == c
        invariant
            lo <= a <= hi <= s@.len(),
            w == s@.subrange(lo as int, hi as int),
            start_while(w, c, a - lo) == start_while(w, c, 0),
        decreases hi - a,
    {
        assert(w[a - lo] == s@[a as int]);
        a = a + 1;
    }
    assert(a < hi ==> w[a - lo] == s@[a as int]);
    let ghost t = w.subrange(a - lo, w.len() as int);
    assert(t =~= trim_start_char(w, c));
    let mut b = hi;
    while b > a && s[b - 1] == c
        invariant
            lo <= a <= b <= hi <= s@.len(),
            t == s@.subrange(a as int, hi as int),
            end_while(t, c, b - a) == end_while(t, c, t.len() as int),
        decreases b,
    {
        assert(t[b - 1 - a] == s@[b - 1]);
        b = b - 1;
    }
    assert(b > a ==> t[b - 1 - a] == s@[b - 1]);
    assert(s@.subrange(a as int, b as int) =~= t.subrange(0, b - a));
    (a, b)
}

/// The part of `s` after its last `c`, or all of `s`.
pub fn after_last_chars(s: &[char], c: char) -> (r: Vec<char>)
    ensures
        r@ == after_last(s@, c),
{
    let a = after_last_window(s, 0, s.len(), c);
    assert(s@.subrange(0, s@.len() as int) =~= s@);
    slice_chars(s, a, s.len())
}

/// `first_ws` stays within `[i, len]` and lands on whitespace.
pub proof fn lemma_first_ws(s: Seq<char>, i: int)
    requires
        0 <= i <= s.len(),
    ensures
        i <= first_ws(s, i) <= s.len(),
        first_ws(s, i) < s.len() ==> is_ws(s[first_ws(s, i)]),
        forall|k: int| i <= k < first_ws(s, i) ==> !is_ws(#[trigger] s[k]),
    decreases s.len() - i,
{
    if i < s.len() && !is_ws(s[i]) {
        lemma_first_ws(s, i + 1);
    }
}

/// The whitespace-separated words of `s`.
pub fn words_of(s: &[char]) -> (r: Vec<Vec<char>>)
    ensures
        rows(r@) == words(s@),
{
    let mut r: Vec<Vec<char>> = Vec::new();
    let mut i: usize = 0;
    loop
        invariant
            i <= s@.len(),
            rows(r@) + words_from(s@, i as int) == words(s@),
        decreases s@.len() - i,
    {
        let mut a = i;
        while a < s.len() && is_whitespace(s[a])
            invariant
                i <= a <= s@.len(),
                first_non_ws(s@, a as int) == first_non_ws(s@, i as int),
            decreases s.len() - a,
        {
            a = a + 1;
        }
        if a >= s.len() {
            assert(rows(r@) + words_from(s@, i as int) =~= rows(r@));
            return r;
        }
        let mut b = a;
        while b < s.len() && !is_whitespace(s[b])
            invariant
                a <= b <= s@.len(),
                first_ws(s@, b as int) == first_ws(s@, a as int),
            decreases s.len() - b,
        {
            b = b + 1;
        }
        proof {
            lemma_first_non_ws(s@, i as int);
            lemma_first_ws(s@, a as int);
        }
        assert(b > a);
        let w = slice_chars(s, a, b);
        let ghost r0 = rows(r@);
        r.push(w);
        assert(rows(r@) =~= r0.push(w@));
        assert(rows(r@) + words_from(s@, b as int) =~= r0 + words_from(s@, i as int));
        i = b;
    }
}

/// The pieces of `s` between occurrences of `c`.
pub fn split_chars(s: &[char], c: char) -> (r: Vec<Vec<char>>)
    ensures
        rows(r@) == split(s@, c),
{
    let mut r: Vec<Vec<char>> = Vec::new();
    let mut start: usize = 0;
    let mut i: usize = 0;
    while i < s.len()
        invariant
            start <= i <= s@.len(),
            rows(r@) + split_rec(s@, c, start as int, i as int) == split(s@, c),
        decreases s.len() - i,
    {
        if s[i] == c {
            let piece = slice_chars(s, start, i);
            let ghost before = rows(r@);
            r.push(piece);
            assert(rows(r@) =~= before.push(s@.subrange(start as int, i as int)));
            assert(before + split_rec(s@, c, start as int, i as int) =~= rows(r@)
                + split_rec(s@, c, i + 1, i + 1));
            start = i + 1;
        }
        i = i + 1;
    }
    let piece = slice_chars(s, start, s.len());
    let ghost before = rows(r@);
    r.push(piece);
    assert(rows(r@) =~= before.push(s@.subrange(start as int, s@.len() as int)));
    assert(before + split_rec(s@, c, start as int, i as int) =~= rows(r@));
    r
}

/// The lines of `s`.
pub fn lines_of(s: &[char]) -> (r: Vec<Vec<char>>)
    ensures
        rows(r@) == lines(s@),
{
    let parts = split_chars(s, '\n');
    proof {
        lemma_split_nonempty(s@, '\n', 0, 0);
    }
    let n = if parts[parts.len() - 1].len() == 0 {
        parts.len() - 1
    } else {
        parts.len()
    };
    let mut r: Vec<Vec<char>> = Vec::new();
    let mut i: usize = 0;
    while i < n
        invariant
            n <= parts@.len(),
            rows(parts@) == split(s@, '\n'),
            i <= n,
            rows(r@) == lines(s@).subrange(0, i as int),
            n == lines(s@).len(),
        decreases n - i,
    {
        let p = &parts[i];
        let line = if i + 1 < parts.len() && p.len() > 0 && p[p.len() - 1] == '\r' {
            slice_chars(p, 0, p.len() - 1)
        } else {
            slice_chars(p, 0, p.len())
        };
        proof {
            assert(rows(parts@)[i as int] == parts@[i as int]@);
            assert(p@.subrange(0, p@.len() - 1) =~= p@.drop_last());
            assert(p@.subrange(0, p@.len() as int) =~= p@);
        }
        let ghost before = rows(r@);
        r.push(line);
        assert(rows(r@) =~= before.push(line@));
        assert(rows(r@) =~= lines(s@).subrange(0, i + 1));
        i = i + 1;
    }
    assert(rows(r@) =~= lines(s@));
    r
}

/// `split_rec` always yields at least one piece.
pub proof fn lemma_split_nonempty(s: Seq<char>, c: char, start: int, i: int)
    ensures
        split_rec(s, c, start, i).len() >= 1,
    decreases s.len() - i,
{
    if i < s.len() {
        if s[i] == c {
            lemma_split_nonempty(s, c, i + 1, i + 1);
        } else {
            lemma_split_nonempty(s, c, start, i + 1);
        }
    }
}

/// `s` with every occurrence of `pat` replaced by `rep`.
pub fn replace_chars(s: &[char], pat: &[char], rep: &[char]) -> (r: Vec<char>)
    requires
        pat@.len() > 0,
    ensures
        r@ == replace_all(s@, pat@, rep@),
{
    let mut r: Vec<char> = Vec::new();
    let mut i: usize = 0;
    assert(s@.subrange(0, s@.len() as int) =~= s@);
    assert(r@ + s@ =~= s@);
    while i < s.len()
        invariant
            pat@.len() > 0,
            i <= s@.len(),
            r@ + replace_all(s@.subrange(i as int, s@.len() as int), pat@, rep@) == replace_all(
                s@,
                pat@,
                rep@,
            ),
        decreases s.len() - i,
    {
        let ghost rest = s@.subrange(i as int, s@.len() as int);
        if matches_at(s, pat, i) {
            proof {
                assert(rest.subrange(0, pat@.len() as int) =~= s@.subrange(
                    i as int,
                    i + pat@.len(),
                ));
                assert(rest.subrange(pat@.len() as int, rest.len() as int) =~= s@.subrange(
                    i + pat@.len(),
                    s@.len() as int,
                ));
            }
            let ghost r0 = r@;
            push_all(&mut r, rep);
            assert(r@ == r0 + rep@);
            assert((r0 + rep@) + replace_all(rest.subrange(pat@.len() as int, rest.len() as int), pat@, rep@)
                =~= r0 + (rep@ + replace_all(rest.subrange(pat@.len() as int, rest.len() as int), pat@, rep@)));
            i = i + pat.len();
        } else {
            proof {
                if rest.len() >= pat@.len() {
                    assert(rest.subrange(0, pat@.len() as int) =~= s@.subrange(
                        i as int,
                        i + pat@.len(),
                    ));
                }
                assert(rest.subrange(1, rest.len() as int) =~= s@.subrange(
                    i + 1,
                    s@.len() as int,
                ));
            }
            let ghost r0 = r@;
            r.push(s[i]);
            assert(r@ =~= r0 + seq![s@[i as int]]);
            assert(rest[0] == s@[i as int]);
            assert((r0 + seq![s@[i as int]]) + replace_all(rest.subrange(1, rest.len() as int), pat@, rep@)
                =~= r0 + (seq![rest[0]] + replace_all(rest.subrange(1, rest.len() as int), pat@, rep@)));
            i = i + 1;
        }
    }
    proof {
        assert(s@.subrange(i as int, s@.len() as int) =~= Seq::<char>::empty());
        assert(r@ + Seq::<char>::empty() =~= r@);
    }
    r
}

} // verus!
