//! Handling of `soar://` links.
//!
//! Any web page can send the browser here, so a link is untrusted input that
//! reached the machine without the user typing anything: it is matched against
//! an allowlist before soar acts on it. Registering the handler rewrites the
//! shipped desktop entry to point at the soar doing the registering.

use vstd::prelude::*;

use crate::soar_error::SoarError;
use crate::text::{seq_eq, texts};
use crate::text::{
    after_last, after_last_chars, chars_of, concat, eq_ignore_ascii_case, find_any, find_seq_from,
    first_of, first_occurrence, lemma_first_of, lemma_first_occurrence, has_char, replace_all,
    replace_chars, same_ignoring_ascii_case, slice_chars, string_of, trim_end_char, trim_end_chars,
    utf8_longer_than,
};
use vstd::string::StringSliceAdditionalSpecFns;
use vstd::utf8::encode_utf8;

verus! {

/// The longest link accepted, in bytes.
pub const MAX_URL_LEN: usize = 512;

/// The name the handler's desktop entry is registered under.
pub const DESKTOP_FILE_NAME: &'static str = "soar-url-handler.desktop";

/// The MIME type of `soar://` links.
pub const SCHEME_MIME: &'static str = "x-scheme-handler/soar";

/// The desktop entry a package ships, which registering rewrites for one
/// user.
pub const DESKTOP_ENTRY: &'static str = "[Desktop Entry]\nType=Application\nName=Soar\nComment=Install packages from soar:// links\nExec=soar url %u\nTerminal=false\nNoDisplay=true\nMimeType=x-scheme-handler/soar;\n";

/// The line of the shipped entry that names the soar to run.
pub const PACKAGED_EXEC: &'static str = "Exec=soar url %u";

/// What a link asks for.
#[derive(Debug, PartialEq, Eq)]
pub enum UrlRequest {
    /// Install a package, given as a normal `family/name@version:repo` query.
    Install(String),
}

/// An ASCII letter or digit.
pub open spec fn is_alnum(c: char) -> bool {
    ('A' <= c && c <= 'Z') || ('a' <= c && c <= 'z') || ('0' <= c && c <= '9')
}

/// A character that may follow the first one of a word: letters, digits,
/// `.`, `_`, `-`, and `+` except in a repository name.
pub open spec fn is_word_char(c: char, repo: bool) -> bool {
    is_alnum(c) || c == '.' || c == '_' || c == '-' || (!repo && c == '+')
}

/// A word: a letter or digit, then word characters. A word never starts
/// with `-`, so no part of a link can reach soar looking like a flag.
pub open spec fn is_word(s: Seq<char>, repo: bool) -> bool {
    &&& s.len() > 0
    &&& is_alnum(s[0])
    &&& forall|i: int| 1 <= i < s.len() ==> is_word_char(#[trigger] s[i], repo)
}

/// A version, optionally followed by `:` and a repository.
pub open spec fn version_and_repo(t: Seq<char>) -> bool {
    let b = first_of(t, seq![':'], 0);
    is_word(t.subrange(0, b), false) && (b == t.len() || is_word(
        t.subrange(b + 1, t.len() as int),
        true,
    ))
}

/// A name, optionally followed by `@` and a version, then optionally by `:`
/// and a repository.
pub open spec fn name_and_rest(r: Seq<char>) -> bool {
    let a = first_of(r, seq!['@', ':'], 0);
    &&& is_word(r.subrange(0, a), false)
    &&& (a == r.len() || (r[a] == '@' && version_and_repo(r.subrange(a + 1, r.len() as int))) || (
    r[a] == ':' && is_word(r.subrange(a + 1, r.len() as int), true)))
}

/// A package query as a link may carry it: `[family/]name[@version][:repo]`,
/// each part a word.
pub open spec fn is_package_query(s: Seq<char>) -> bool {
    let k = first_of(s, seq!['/'], 0);
    if k < s.len() {
        is_word(s.subrange(0, k), false) && name_and_rest(s.subrange(k + 1, s.len() as int))
    } else {
        name_and_rest(s)
    }
}

/// The message of a rejected link.
pub open spec fn invalid_message(reason: Seq<char>) -> Seq<char> {
    "Invalid soar:// URL: "@ + reason
}

/// What a link asks to install, or why it is rejected: a link must be
/// short, name the `soar` scheme (in any case), carry no escape or query,
/// and be `install/` followed by a package query (trailing slashes aside).
pub open spec fn spec_parse_link(url: Seq<char>) -> Result<Seq<char>, Seq<char>> {
    if encode_utf8(url).len() > MAX_URL_LEN {
        Err("too long"@)
    } else {
        match first_occurrence(url, "://"@, 0) {
            None => Err("expected a soar:// link"@),
            Some(i) => if !eq_ignore_ascii_case(url.subrange(0, i), "soar"@) {
                Err("expected a soar:// link"@)
            } else {
                let rest = url.subrange(i + 3, url.len() as int);
                if rest.contains('%') || rest.contains('?') || rest.contains('#') {
                    Err("escapes and query strings are not accepted"@)
                } else {
                    let j = first_of(rest, seq!['/'], 0);
                    if j == rest.len() {
                        Err("expected soar://install/<package>"@)
                    } else {
                        let action = rest.subrange(0, j);
                        let spec = trim_end_char(rest.subrange(j + 1, rest.len() as int), '/');
                        if action == "install"@ {
                            if spec.len() == 0 {
                                Err("no package given"@)
                            } else if !is_package_query(spec) {
                                Err("`"@ + spec + "` is not a package query"@)
                            } else {
                                Ok(spec)
                            }
                        } else {
                            Err("unknown action `"@ + action + "`"@)
                        }
                    }
                }
            },
        }
    }
}

fn alnum(c: char) -> (b: bool)
    ensures
        b == is_alnum(c),
{
    ('A' <= c && c <= 'Z') || ('a' <= c && c <= 'z') || ('0' <= c && c <= '9')
}

/// Whether `s` is a word (a repository name where `repo`).
fn word(s: &[char], repo: bool) -> (b: bool)
    ensures
        b == is_word(s@, repo),
{
    if s.len() == 0 || !alnum(s[0]) {
        return false;
    }
    let mut i: usize = 1;
    while i < s.len()
        invariant
            1 <= i <= s@.len(),
            forall|k: int| 1 <= k < i ==> is_word_char(#[trigger] s@[k], repo),
        decreases s.len() - i,
    {
        let c = s[i];
        if !(alnum(c) || c == '.' || c == '_' || c == '-' || (!repo && c == '+')) {
            return false;
        }
        i = i + 1;
    }
    true
}

fn version_repo(t: &[char]) -> (b: bool)
    ensures
        b == version_and_repo(t@),
{
    let colon = vec![':'];
    assert(colon@ =~= seq![':']);
    let b = find_any(t, &colon, 0);
    if !word(&slice_chars(t, 0, b), false) {
        return false;
    }
    b == t.len() || word(&slice_chars(t, b + 1, t.len()), true)
}

fn name_rest(r: &[char]) -> (b: bool)
    ensures
        b == name_and_rest(r@),
{
    let stops = vec!['@', ':'];
    assert(stops@ =~= seq!['@', ':']);
    let a = find_any(r, &stops, 0);
    if !word(&slice_chars(r, 0, a), false) {
        return false;
    }
    if a == r.len() {
        return true;
    }
    let tail = slice_chars(r, a + 1, r.len());
    if r[a] == '@' {
        version_repo(&tail)
    } else {
        r[a] == ':' && word(&tail, true)
    }
}

/// Whether `s` is a package query a link may carry.
pub fn package_query_shape(s: &[char]) -> (b: bool)
    ensures
        b == is_package_query(s@),
{
    let slash = vec!['/'];
    assert(slash@ =~= seq!['/']);
    let k = find_any(s, &slash, 0);
    if k < s.len() {
        word(&slice_chars(s, 0, k), false) && name_rest(&slice_chars(s, k + 1, s.len()))
    } else {
        name_rest(s)
    }
}

fn invalid(reason: &[char]) -> (e: SoarError)
    ensures
        e matches SoarError::Custom(m) && m@ == invalid_message(reason@),
{
    SoarError::Custom(string_of(&concat(&chars_of("Invalid soar:// URL: "), reason)))
}

/// Check the package a link names against the allowlist: present, and a
/// package query each part of which is a word.
pub fn validate_spec(spec: &str) -> (r: Result<(), SoarError>)
    ensures
        spec@.len() == 0 ==> (r matches Err(SoarError::Custom(m)) && m@ == invalid_message(
            "no package given"@,
        )),
        spec@.len() > 0 && !is_package_query(spec@) ==> (r matches Err(SoarError::Custom(m)) && m@
            == invalid_message("`"@ + spec@ + "` is not a package query"@)),
        spec@.len() > 0 && is_package_query(spec@) ==> r is Ok,
{
    let s = chars_of(spec);
    if s.len() == 0 {
        return Err(invalid(&chars_of("no package given")));
    }
    if !package_query_shape(&s) {
        let m = concat(&concat(&chars_of("`"), &s), &chars_of("` is not a package query"));
        return Err(invalid(&m));
    }
    Ok(())
}

/// Parse a `soar://` link, rejecting anything outside the allowlist rather
/// than trying to sanitize it.
pub fn parse(url: &str) -> (r: Result<UrlRequest, SoarError>)
    ensures
        match spec_parse_link(url@) {
            Ok(s) => r matches Ok(UrlRequest::Install(x)) && x@ == s,
            Err(m) => r matches Err(SoarError::Custom(e)) && e@ == invalid_message(m),
        },
{
    if utf8_longer_than(url, MAX_URL_LEN) {
        return Err(invalid(&chars_of("too long")));
    }
    let u = chars_of(url);
    let sep = chars_of("://");
    proof {
        reveal_strlit("://");
    }
    let i = match find_seq_from(&u, &sep, 0) {
        Some(i) => i,
        None => {
            return Err(invalid(&chars_of("expected a soar:// link")));
        },
    };
    proof {
        lemma_first_occurrence(u@, sep@, 0);
        assert(sep@.len() == 3);
        assert(i + 3 <= u@.len());
    }
    if !same_ignoring_ascii_case(&slice_chars(&u, 0, i), &chars_of("soar")) {
        return Err(invalid(&chars_of("expected a soar:// link")));
    }
    let rest = slice_chars(&u, i + 3, u.len());
    if has_char(&rest, '%') || has_char(&rest, '?') || has_char(&rest, '#') {
        return Err(invalid(&chars_of("escapes and query strings are not accepted")));
    }
    let slash = vec!['/'];
    assert(slash@ =~= seq!['/']);
    let j = find_any(&rest, &slash, 0);
    if j == rest.len() {
        return Err(invalid(&chars_of("expected soar://install/<package>")));
    }
    let action = slice_chars(&rest, 0, j);
    let spec = trim_end_chars(&slice_chars(&rest, j + 1, rest.len()), '/');
    let install = chars_of("install");
    if action.len() == install.len() && same_chars(&action, &install) {
        if spec.len() == 0 {
            return Err(invalid(&chars_of("no package given")));
        }
        if !package_query_shape(&spec) {
            let m = concat(&concat(&chars_of("`"), &spec), &chars_of("` is not a package query"));
            return Err(invalid(&m));
        }
        Ok(UrlRequest::Install(string_of(&spec)))
    } else {
        let m = concat(&concat(&chars_of("unknown action `"), &action), &chars_of("`"));
        Err(invalid(&m))
    }
}

fn same_chars(a: &[char], b: &[char]) -> (r: bool)
    ensures
        r == (a@ == b@),
{
    crate::text::seq_eq(a, b)
}

/// A character that makes the `Exec` path need quoting.
pub open spec fn is_reserved(c: char) -> bool {
    c == ' ' || c == '\t' || c == '\n' || c == '"' || c == '\'' || c == '\\' || c == '>' || c
        == '<' || c == '~' || c == '|' || c == '&' || c == ';' || c == '$' || c == '*' || c == '?'
        || c == '#' || c == '(' || c == ')' || c == '`'
}

/// A character as it stands inside the quotes of an `Exec` value: a
/// backslash guards `"`, a backtick, `$` and itself, and the desktop-entry
/// string layer escapes each of those backslashes a second time.
pub open spec fn escaped_char(c: char) -> Seq<char> {
    if c == '\\' {
        seq!['\\', '\\', '\\', '\\']
    } else if c == '"' || c == '`' || c == '$' {
        seq!['\\', '\\', c]
    } else {
        seq![c]
    }
}

/// Each character of `s` as it stands inside the quotes.
pub open spec fn escaped(s: Seq<char>) -> Seq<char>
    decreases s.len(),
{
    if s.len() == 0 {
        Seq::empty()
    } else {
        escaped(s.drop_last()) + escaped_char(s.last())
    }
}

/// Whether any character of `s` is reserved.
pub open spec fn has_reserved(s: Seq<char>) -> bool {
    exists|i: int| 0 <= i < s.len() && is_reserved(#[trigger] s[i])
}

/// `exe` encoded for the `Exec` key: a `%` starts a field code, so a literal
/// one doubles; the path is quoted, its characters escaped, only where it
/// holds a reserved character (a plain `command -v` finds nothing behind
/// quotes).
pub open spec fn spec_escape_exec(exe: Seq<char>) -> Seq<char> {
    let e = replace_all(exe, "%"@, "%%"@);
    if has_reserved(e) {
        seq!['"'] + escaped(e) + seq!['"']
    } else {
        e
    }
}

fn reserved(c: char) -> (b: bool)
    ensures
        b == is_reserved(c),
{
    c == ' ' || c == '\t' || c == '\n' || c == '"' || c == '\'' || c == '\\' || c == '>' || c
        == '<' || c == '~' || c == '|' || c == '&' || c == ';' || c == '$' || c == '*' || c == '?'
        || c == '#' || c == '(' || c == ')' || c == '`'
}

/// Encode a path for the `Exec` key.
pub fn escape_exec(exe: &str) -> (r: String)
    ensures
        r@ == spec_escape_exec(exe@),
{
    let pct = chars_of("%");
    proof {
        reveal_strlit("%");
    }
    let e = replace_chars(&chars_of(exe), &pct, &chars_of("%%"));
    let mut any = false;
    let mut i: usize = 0;
    while i < e.len()
        invariant
            i <= e@.len(),
            any == exists|k: int| 0 <= k < i && is_reserved(#[trigger] e@[k]),
        decreases e.len() - i,
    {
        if reserved(e[i]) {
            any = true;
        }
        i = i + 1;
    }
    if !any {
        return string_of(&e);
    }
    let mut out: Vec<char> = Vec::new();
    out.push('"');
    let mut i: usize = 0;
    while i < e.len()
        invariant
            i <= e@.len(),
            out@ == seq!['"'] + escaped(e@.subrange(0, i as int)),
        decreases e.len() - i,
    {
        let c = e[i];
        assert(e@.subrange(0, i + 1).drop_last() =~= e@.subrange(0, i as int));
        if c == '\\' {
            out.push('\\');
            out.push('\\');
            out.push('\\');
            out.push('\\');
        } else if c == '"' || c == '`' || c == '$' {
            out.push('\\');
            out.push('\\');
            out.push(c);
        } else {
            out.push(c);
        }
        i = i + 1;
        assert(out@ =~= seq!['"'] + escaped(e@.subrange(0, i as int)));
    }
    out.push('"');
    assert(e@.subrange(0, e@.len() as int) =~= e@);
    string_of(&out)
}

/// The shipped entry, pointed at the soar at `exe` rather than at whichever
/// one `PATH` happens to hold.
pub fn desktop_entry(exe: &str) -> (r: String)
    ensures
        r@ == replace_all(
            DESKTOP_ENTRY@,
            PACKAGED_EXEC@,
            "Exec="@ + spec_escape_exec(exe@) + " url %u"@,
        ),
{
    let exec = concat(
        &concat(&chars_of("Exec="), &chars_of(escape_exec(exe).as_str())),
        &chars_of(" url %u"),
    );
    let pat = chars_of(PACKAGED_EXEC);
    proof {
        reveal_strlit("Exec=soar url %u");
    }
    string_of(&replace_chars(&chars_of(DESKTOP_ENTRY), &pat, &exec))
}

/// A character a package query in a link may hold.
pub open spec fn is_query_char(c: char) -> bool {
    is_word_char(c, false) || c == '/' || c == '@' || c == ':'
}

/// A character that starts a part of a query.
pub open spec fn is_part_start(c: char) -> bool {
    c == '/' || c == '@' || c == ':'
}

/// Text no part of which can be read as a flag or by a shell: it starts
/// with a letter or digit, holds only letters, digits, `.`, `_`, `+`, `-`,
/// `/`, `@` and `:`, and each part after a `/`, `@` or `:` starts with a
/// letter or digit.
pub open spec fn is_plain(s: Seq<char>) -> bool {
    &&& s.len() > 0
    &&& is_alnum(s[0])
    &&& forall|i: int| 0 <= i < s.len() ==> is_query_char(#[trigger] s[i])
    &&& forall|i: int| 1 <= i < s.len() && is_part_start(#[trigger] s[i - 1]) ==> is_alnum(s[i])
}

proof fn lemma_word_is_plain(w: Seq<char>, repo: bool)
    requires
        is_word(w, repo),
    ensures
        is_plain(w),
        !is_part_start(w.last()),
{
    if w.len() > 1 {
        assert(is_word_char(w[w.len() - 1], repo));
    }
    assert forall|i: int| 0 <= i < w.len() implies is_query_char(#[trigger] w[i]) by {
        if i > 0 {
            assert(is_word_char(w[i], repo));
        }
    }
    assert forall|i: int| 1 <= i < w.len() && is_part_start(#[trigger] w[i - 1]) implies is_alnum(
        w[i],
    ) by {
        if i - 1 > 0 {
            assert(is_word_char(w[i - 1], repo));
        }
    }
}

proof fn lemma_join_plain(a: Seq<char>, c: char, b: Seq<char>)
    requires
        is_plain(a),
        !is_part_start(a.last()),
        is_plain(b),
        is_part_start(c),
    ensures
        is_plain(a + seq![c] + b),
{
    let s = a + seq![c] + b;
    assert forall|i: int| 0 <= i < s.len() implies is_query_char(#[trigger] s[i]) by {
        if i < a.len() {
            assert(s[i] == a[i]);
        } else if i > a.len() {
            assert(s[i] == b[i - a.len() - 1]);
        }
    }
    assert forall|i: int| 1 <= i < s.len() && is_part_start(#[trigger] s[i - 1]) implies is_alnum(
        s[i],
    ) by {
        if i < a.len() {
            assert(s[i] == a[i] && s[i - 1] == a[i - 1]);
        } else if i == a.len() {
            assert(s[i - 1] == a.last());
        } else if i == a.len() + 1 {
            assert(s[i] == b[0]);
        } else {
            let j = i - a.len() - 1;
            assert(s[i] == b[j]);
            assert(s[i - 1] == b[j - 1]);
            assert(1 <= j < b.len() && is_part_start(b[j - 1]));
        }
    }
    assert(s[0] == a[0]);
}

proof fn lemma_split_at(s: Seq<char>, k: int)
    requires
        0 <= k < s.len(),
    ensures
        s == s.subrange(0, k) + seq![s[k]] + s.subrange(k + 1, s.len() as int),
{
    assert(s =~= s.subrange(0, k) + seq![s[k]] + s.subrange(k + 1, s.len() as int));
}

proof fn lemma_version_and_repo_plain(t: Seq<char>)
    requires
        version_and_repo(t),
    ensures
        is_plain(t),
{
    let b = first_of(t, seq![':'], 0);
    lemma_first_of(t, seq![':'], 0);
    lemma_word_is_plain(t.subrange(0, b), false);
    if b < t.len() {
        assert(seq![':'].contains(t[b]));
        assert(t[b] == ':');
        lemma_word_is_plain(t.subrange(b + 1, t.len() as int), true);
        lemma_split_at(t, b);
        lemma_join_plain(t.subrange(0, b), t[b], t.subrange(b + 1, t.len() as int));
    } else {
        assert(t.subrange(0, b) =~= t);
    }
}

proof fn lemma_name_and_rest_plain(r: Seq<char>)
    requires
        name_and_rest(r),
    ensures
        is_plain(r),
{
    let a = first_of(r, seq!['@', ':'], 0);
    lemma_first_of(r, seq!['@', ':'], 0);
    lemma_word_is_plain(r.subrange(0, a), false);
    if a < r.len() {
        let tail = r.subrange(a + 1, r.len() as int);
        if r[a] == '@' {
            lemma_version_and_repo_plain(tail);
        } else {
            lemma_word_is_plain(tail, true);
        }
        lemma_split_at(r, a);
        lemma_join_plain(r.subrange(0, a), r[a], tail);
    } else {
        assert(r.subrange(0, a) =~= r);
    }
}

/// What a link can ask to install is plain text: it starts with a letter
/// or digit, holds only letters, digits, `.`, `_`, `+`, `-`, `/`, `@` and
/// `:`, and no part of it starts with `-`, so nothing in it reaches soar
/// as a flag or a shell as syntax.
pub proof fn lemma_link_package_is_plain(url: Seq<char>)
    requires
        spec_parse_link(url) is Ok,
    ensures
        is_plain(spec_parse_link(url)->Ok_0),
{
    let s = spec_parse_link(url)->Ok_0;
    assert(is_package_query(s));
    let k = first_of(s, seq!['/'], 0);
    lemma_first_of(s, seq!['/'], 0);
    if k < s.len() {
        assert(s[k] == '/');
        lemma_word_is_plain(s.subrange(0, k), false);
        lemma_name_and_rest_plain(s.subrange(k + 1, s.len() as int));
        lemma_split_at(s, k);
        lemma_join_plain(s.subrange(0, k), s[k], s.subrange(k + 1, s.len() as int));
    } else {
        lemma_name_and_rest_plain(s);
    }
}

/// The characters an `Exec` value stands for inside its quotes: two
/// doubled backslashes are a backslash, a doubled backslash before another
/// character is that character, anything else is itself.
pub open spec fn unescaped(s: Seq<char>) -> Seq<char>
    decreases s.len(),
{
    if s.len() == 0 {
        Seq::empty()
    } else if s.len() >= 4 && s[0] == '\\' && s[1] == '\\' && s[2] == '\\' && s[3] == '\\' {
        seq!['\\'] + unescaped(s.subrange(4, s.len() as int))
    } else if s.len() >= 3 && s[0] == '\\' && s[1] == '\\' {
        seq![s[2]] + unescaped(s.subrange(3, s.len() as int))
    } else {
        seq![s[0]] + unescaped(s.subrange(1, s.len() as int))
    }
}

/// The path an `Exec` value names, read as the desktop-entry layers
/// define it: the quotes taken off and the escapes inside them undone where
/// it is quoted, then each `%%` read as `%`.
pub open spec fn decode_exec(v: Seq<char>) -> Seq<char> {
    let inner = if v.len() >= 2 && v[0] == '"' {
        unescaped(v.subrange(1, v.len() - 1))
    } else {
        v
    };
    replace_all(inner, "%%"@, "%"@)
}

proof fn lemma_escaped_add(a: Seq<char>, b: Seq<char>)
    ensures
        escaped(a + b) == escaped(a) + escaped(b),
    decreases b.len(),
{
    if b.len() == 0 {
        assert(a + b =~= a);
        assert(escaped(b) =~= Seq::<char>::empty());
        assert(escaped(a) + escaped(b) =~= escaped(a));
    } else {
        lemma_escaped_add(a, b.drop_last());
        assert((a + b).drop_last() =~= a + b.drop_last());
        assert((a + b).last() == b.last());
        assert(escaped(a + b) =~= escaped(a) + escaped(b));
    }
}

proof fn lemma_unescape_escaped(e: Seq<char>)
    ensures
        unescaped(escaped(e)) == e,
    decreases e.len(),
{
    if e.len() == 0 {
        assert(escaped(e) =~= Seq::<char>::empty());
    } else {
        let c = e[0];
        let rest = e.drop_first();
        assert(e =~= seq![c] + rest);
        lemma_escaped_add(seq![c], rest);
        assert(seq![c].drop_last() =~= Seq::<char>::empty());
        assert(escaped(seq![c].drop_last()) =~= Seq::<char>::empty());
        assert(escaped(seq![c]) =~= escaped_char(c));
        let t = escaped(e);
        let r = escaped(rest);
        lemma_unescape_escaped(rest);
        assert(t == escaped_char(c) + r);
        if c == '\\' {
            assert(t.subrange(4, t.len() as int) =~= r);
        } else if c == '"' || c == '`' || c == '$' {
            assert(t.subrange(3, t.len() as int) =~= r);
            assert(t[2] == c);
        } else {
            assert(t.subrange(1, t.len() as int) =~= r);
            assert(t[0] == c);
        }
        assert(unescaped(t) =~= e);
    }
}

proof fn lemma_undouble(x: Seq<char>)
    ensures
        replace_all(replace_all(x, "%"@, "%%"@), "%%"@, "%"@) == x,
    decreases x.len(),
{
    reveal_strlit("%");
    reveal_strlit("%%");
    let d = replace_all(x, "%"@, "%%"@);
    if x.len() > 0 {
        let rest = x.subrange(1, x.len() as int);
        lemma_undouble(rest);
        let dr = replace_all(rest, "%"@, "%%"@);
        if x[0] == '%' {
            assert(x.subrange(0, 1) =~= "%"@);
            assert(d == "%%"@ + dr);
            assert(d.subrange(0, 2) =~= "%%"@);
            assert(d.subrange(2, d.len() as int) =~= dr);
        } else {
            assert(x.subrange(0, 1) != "%"@) by {
                assert(x.subrange(0, 1)[0] == x[0]);
            }
            assert(d == seq![x[0]] + dr);
            if d.len() >= 2 {
                assert(d.subrange(0, 2) != "%%"@) by {
                    assert(d.subrange(0, 2)[0] == x[0]);
                }
            }
            assert(d.subrange(1, d.len() as int) =~= dr);
        }
        assert(replace_all(d, "%%"@, "%"@) =~= x);
    }
}

/// An `Exec` value names the path it was made from: reading it back as the
/// desktop-entry layers define undoes both the quoting and the doubling of
/// `%`, whatever the path holds.
pub proof fn lemma_exec_roundtrip(exe: Seq<char>)
    ensures
        decode_exec(spec_escape_exec(exe)) == exe,
{
    reveal_strlit("%");
    let e = replace_all(exe, "%"@, "%%"@);
    lemma_undouble(exe);
    let v = spec_escape_exec(exe);
    if has_reserved(e) {
        lemma_unescape_escaped(e);
        assert(v.subrange(1, v.len() - 1) =~= escaped(e));
    } else {
        if v.len() >= 2 && v[0] == '"' {
            assert(is_reserved(e[0]));
        }
    }
}

/// The terminals a link is opened in, tried in this order, each with the
/// arguments it takes before the command to run (they never agreed on a
/// flag).
pub open spec fn spec_terminals() -> Seq<(Seq<char>, Seq<Seq<char>>)> {
    seq![
        ("xdg-terminal-exec"@, seq![]),
        ("wezterm"@, seq!["start"@, "--"@]),
        ("ghostty"@, seq!["-e"@]),
        ("kitty"@, seq![]),
        ("foot"@, seq![]),
        ("alacritty"@, seq!["-e"@]),
        ("wterm"@, seq!["-e"@]),
        ("konsole"@, seq!["-e"@]),
        ("gnome-terminal"@, seq!["--"@]),
        ("xfce4-terminal"@, seq!["-x"@]),
        ("st"@, seq!["-e"@]),
        ("urxvt"@, seq!["-e"@]),
        ("xterm"@, seq!["-e"@]),
    ]
}

/// The number of known terminals.
pub const TERMINAL_COUNT: usize = 13;

/// The terminal at `i` of the order they are tried in.
pub fn terminal_name(i: usize) -> (r: &'static str)
    requires
        i < TERMINAL_COUNT,
    ensures
        r@ == spec_terminals()[i as int].0,
{
    if i == 0 {
        "xdg-terminal-exec"
    } else if i == 1 {
        "wezterm"
    } else if i == 2 {
        "ghostty"
    } else if i == 3 {
        "kitty"
    } else if i == 4 {
        "foot"
    } else if i == 5 {
        "alacritty"
    } else if i == 6 {
        "wterm"
    } else if i == 7 {
        "konsole"
    } else if i == 8 {
        "gnome-terminal"
    } else if i == 9 {
        "xfce4-terminal"
    } else if i == 10 {
        "st"
    } else if i == 11 {
        "urxvt"
    } else {
        "xterm"
    }
}

fn words_vec(a: &str, b: &str, n: usize) -> (r: Vec<String>)
    requires
        n <= 2,
    ensures
        texts(r@) == if n == 0 {
            seq![]
        } else if n == 1 {
            seq![a@]
        } else {
            seq![a@, b@]
        },
{
    let mut r: Vec<String> = Vec::new();
    if n >= 1 {
        r.push(string_of(&chars_of(a)));
    }
    if n >= 2 {
        r.push(string_of(&chars_of(b)));
    }
    assert(texts(r@) =~= if n == 0 {
        seq![]
    } else if n == 1 {
        seq![a@]
    } else {
        seq![a@, b@]
    });
    r
}

/// The arguments the terminal at `i` takes before the command it runs.
pub fn terminal_args(i: usize) -> (r: Vec<String>)
    requires
        i < TERMINAL_COUNT,
    ensures
        texts(r@) == spec_terminals()[i as int].1,
{
    proof {
        reveal_strlit("-e");
        reveal_strlit("--");
        reveal_strlit("start");
        reveal_strlit("-x");
    }
    if i == 0 || i == 3 || i == 4 {
        words_vec("", "", 0)
    } else if i == 1 {
        words_vec("start", "--", 2)
    } else if i == 8 {
        words_vec("--", "", 1)
    } else if i == 9 {
        words_vec("-x", "", 1)
    } else {
        words_vec("-e", "", 1)
    }
}

/// The index of the known terminal named `name`, from `i` on.
pub open spec fn terminal_index(name: Seq<char>, i: int) -> Option<int>
    decreases spec_terminals().len() - i,
{
    if i < 0 || i >= spec_terminals().len() {
        None
    } else if spec_terminals()[i].0 == name {
        Some(i)
    } else {
        terminal_index(name, i + 1)
    }
}

/// The arguments a preferred terminal (`$TERMINAL`, read by the last piece
/// of its path) takes: those of the known terminal of that name, else `-e`,
/// the common form.
pub open spec fn spec_preferred_args(preferred: Seq<char>) -> Seq<Seq<char>> {
    match terminal_index(after_last(preferred, '/'), 0) {
        Some(i) => spec_terminals()[i].1,
        None => seq!["-e"@],
    }
}

/// The arguments a preferred terminal takes before the command it runs.
pub fn preferred_terminal_args(preferred: &str) -> (r: Vec<String>)
    ensures
        texts(r@) == spec_preferred_args(preferred@),
{
    let base = after_last_chars(&chars_of(preferred), '/');
    let mut i: usize = 0;
    while i < TERMINAL_COUNT
        invariant
            i <= TERMINAL_COUNT,
            spec_terminals().len() == TERMINAL_COUNT,
            base@ == after_last(preferred@, '/'),
            terminal_index(base@, i as int) == terminal_index(base@, 0),
        decreases TERMINAL_COUNT - i,
    {
        if seq_eq(&chars_of(terminal_name(i)), &base) {
            return terminal_args(i);
        }
        i = i + 1;
    }
    proof {
        reveal_strlit("-e");
    }
    words_vec("-e", "", 1)
}

/// The terminal a link is opened in and its arguments, given where the
/// preferred terminal and each known one were found: the preferred one
/// where it was found, else the first known one that was (its path);
/// none where nothing was found. `found[i]` is where the `i`-th known
/// terminal was found.
pub open spec fn spec_pick_terminal(
    preferred: Option<Seq<char>>,
    preferred_found: bool,
    found: Seq<Option<Seq<char>>>,
) -> Option<(Seq<char>, Seq<Seq<char>>)> {
    if preferred is Some && preferred_found {
        Some((preferred->0, spec_preferred_args(preferred->0)))
    } else {
        match first_found(found, 0) {
            Some(i) => Some((found[i]->0, spec_terminals()[i].1)),
            None => None,
        }
    }
}

/// The index of the first terminal at or after `i` that was found.
pub open spec fn first_found(found: Seq<Option<Seq<char>>>, i: int) -> Option<int>
    decreases found.len() - i,
{
    if i < 0 || i >= found.len() || i >= spec_terminals().len() {
        None
    } else if found[i] is Some {
        Some(i)
    } else {
        first_found(found, i + 1)
    }
}

/// Choose the terminal to open a link in.
pub fn pick_terminal(preferred: Option<&str>, preferred_found: bool, found: &Vec<Option<String>>) -> (r:
    Option<(String, Vec<String>)>)
    ensures
        match spec_pick_terminal(
            match preferred {
                Some(p) => Some(p@),
                None => None,
            },
            preferred_found,
            found@.map_values(|f: Option<String>| crate::text::opt_chars(f)),
        ) {
            Some((t, args)) => r matches Some((rt, ra)) && rt@ == t && texts(ra@) == args,
            None => r is None,
        },
{
    if let Some(p) = preferred {
        if preferred_found {
            return Some((string_of(&chars_of(p)), preferred_terminal_args(p)));
        }
    }
    let ghost fv = found@.map_values(|f: Option<String>| crate::text::opt_chars(f));
    let mut i: usize = 0;
    while i < found.len() && i < TERMINAL_COUNT
        invariant
            i <= TERMINAL_COUNT,
            i <= found@.len(),
            spec_terminals().len() == TERMINAL_COUNT,
            fv == found@.map_values(|f: Option<String>| crate::text::opt_chars(f)),
            first_found(fv, i as int) == first_found(fv, 0),
            !(preferred is Some && preferred_found),
        decreases TERMINAL_COUNT - i,
    {
        assert(fv[i as int] == crate::text::opt_chars(found@[i as int]));
        if let Some(path) = &found[i] {
            assert(first_found(fv, i as int) == Some(i as int));
            assert(fv[i as int] == Some(path@));
            let t = path.clone();
            assert(t@ == path@);
            return Some((t, terminal_args(i)));
        }
        i = i + 1;
    }
    None
}

} // verus!
