//! URLs as the package manager reads them: the parts of a parsed URL, the
//! check a download URL must pass, and the `file://` scheme that carries a
//! local source through the installer.

use vstd::prelude::*;

use crate::text::opt_chars;
use crate::text::{
    chars_of, has_prefix, lowercase, slice_chars, starts_with, string_of, texts, to_lowercase,
    trim, trim_chars,
};

verus! {

/// The parts of a parsed URL that this library reads.
#[derive(Debug)]
pub struct UrlParts {
    /// The host, where the URL has one.
    pub host: Option<String>,
    /// The segments of the path after its leading `/`, where the path has
    /// one (a URL that cannot be a base has none).
    pub path_segments: Option<Vec<String>>,
}

/// What `url::Url::parse` makes of `s`: `None` where it refuses it, else its
/// host and path segments.
pub uninterp spec fn url_parts(s: Seq<char>) -> Option<(Option<Seq<char>>, Option<Seq<Seq<char>>>)>;

/// The parts a `UrlParts` holds, as plain values.
pub open spec fn parts_view(p: UrlParts) -> (Option<Seq<char>>, Option<Seq<Seq<char>>>) {
    (
        opt_chars(p.host),
        match p.path_segments {
            Some(v) => Some(texts(v@)),
            None => None,
        },
    )
}

/// Parse `s` with `url::Url::parse`, keeping its host (`host_str`) and its
/// path segments (`path_segments`). The contract names the result and says
/// nothing more of it: the URL standard takes pages.
#[verifier::external_body]
pub(crate) fn parse_url(s: &str) -> (r: Option<UrlParts>)
    ensures
        match r {
            Some(p) => url_parts(s@) == Some(parts_view(p)),
            None => url_parts(s@) is None,
        },
{
    match url::Url::parse(s) {
        Ok(u) => Some(
            UrlParts {
                host: u.host_str().map(str::to_string),
                path_segments: u.path_segments().map(|p| p.map(str::to_string).collect()),
            },
        ),
        Err(_) => None,
    }
}

/// What `percent_encoding::percent_decode_str(s).decode_utf8_lossy()` makes
/// of `s`.
pub uninterp spec fn percent_decoded(s: Seq<char>) -> Seq<char>;

/// Decode the percent escapes of `s` with
/// `percent_encoding::percent_decode_str`, replacing bytes that are not
/// UTF-8 (`decode_utf8_lossy`). The contract names the result.
#[verifier::external_body]
fn percent_decode(s: &str) -> (r: String)
    ensures
        r@ == percent_decoded(s@),
{
    percent_encoding::percent_decode_str(s).decode_utf8_lossy().to_string()
}

/// The percent-decoded form of each of `segments`.
pub fn decode_segments(segments: &Vec<String>) -> (r: Vec<String>)
    ensures
        texts(r@) == texts(segments@).map_values(|s: Seq<char>| percent_decoded(s)),
{
    let mut r: Vec<String> = Vec::new();
    let mut i: usize = 0;
    while i < segments.len()
        invariant
            i <= segments@.len(),
            texts(r@) == texts(segments@).subrange(0, i as int).map_values(
                |s: Seq<char>| percent_decoded(s),
            ),
        decreases segments.len() - i,
    {
        let ghost before = texts(r@);
        let d = percent_decode(segments[i].as_str());
        r.push(d);
        assert(texts(r@) =~= before.push(d@));
        assert(texts(segments@).subrange(0, i + 1) =~= texts(segments@).subrange(
            0,
            i as int,
        ).push(segments@[i as int]@));
        i = i + 1;
        assert(texts(r@) =~= texts(segments@).subrange(0, i as int).map_values(
            |s: Seq<char>| percent_decoded(s),
        ));
    }
    assert(texts(segments@).subrange(0, segments@.len() as int) =~= texts(segments@));
    r
}

/// Whether `t`, lowercased, names the HTTP or HTTPS scheme.
pub open spec fn http_scheme(lower: Seq<char>) -> bool {
    starts_with(lower, "http://"@) || starts_with(lower, "https://"@)
}

/// Whether a lowercased URL starts with the HTTP or HTTPS scheme.
pub fn is_http_scheme(lower: &str) -> (b: bool)
    ensures
        b == http_scheme(lower@),
{
    let l = chars_of(lower);
    has_prefix(&l, &chars_of("http://")) || has_prefix(&l, &chars_of("https://"))
}

/// A download URL: after trimming, not empty, HTTP or HTTPS (in any case),
/// and parsed to a URL with a host.
pub open spec fn spec_valid_download_url(url: Seq<char>) -> bool {
    let t = trim(url);
    &&& t.len() > 0
    &&& http_scheme(lowercase(t))
    &&& url_parts(t) matches Some(p) && p.0 is Some
}

/// Validate that a download URL is properly formed: HTTP or HTTPS, and a
/// URL with a host.
pub fn is_valid_download_url(url: &str) -> (b: bool)
    ensures
        b == spec_valid_download_url(url@),
{
    let t = string_of(&trim_chars(&chars_of(url)));
    if chars_of(t.as_str()).len() == 0 {
        return false;
    }
    if !is_http_scheme(to_lowercase(t.as_str()).as_str()) {
        return false;
    }
    match parse_url(t.as_str()) {
        Some(p) => p.host.is_some(),
        None => false,
    }
}

/// The scheme that carries a local source path through the installer's
/// `download_url` field.
pub const LOCAL_SCHEME: &'static str = "file://";

/// The local path a download URL refers to: what follows `file://`, where
/// it starts so.
pub fn local_path_from_url(download_url: &str) -> (r: Option<String>)
    ensures
        starts_with(download_url@, LOCAL_SCHEME@) ==> (r matches Some(p) && p@
            == download_url@.subrange(LOCAL_SCHEME@.len() as int, download_url@.len() as int)),
        !starts_with(download_url@, LOCAL_SCHEME@) ==> r is None,
{
    let u = chars_of(download_url);
    let scheme = chars_of(LOCAL_SCHEME);
    if has_prefix(&u, &scheme) {
        Some(string_of(&slice_chars(&u, scheme.len(), u.len())))
    } else {
        None
    }
}

} // verus!
