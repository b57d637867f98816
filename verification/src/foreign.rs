//! Trusted bindings to the outside primitives this library builds on: the
//! URL parser of the `url` crate, the semantic-version parser of the
//! `semver` crate, and the Unicode character classes of std's `char`.
//!
//! Each binding names what the outside call returns with an uninterpreted
//! spec function and states, as its contract, only what the outside crate's
//! source and documentation plainly give.
use vstd::prelude::*;

verus! {

use crate::text::seq_contains_char;

// ---------------------------------------------------------------------------
// Character classes.
// ---------------------------------------------------------------------------

pub open spec fn ascii_alpha(c: char) -> bool {
    ('a' <= c && c <= 'z') || ('A' <= c && c <= 'Z')
}

pub open spec fn ascii_digit(c: char) -> bool {
    '0' <= c && c <= '9'
}

pub open spec fn ascii_alnum(c: char) -> bool {
    ascii_alpha(c) || ascii_digit(c)
}

/// What `char::is_alphabetic` returns for `c`.
pub uninterp spec fn char_alphabetic(c: char) -> bool;

/// What `char::is_alphanumeric` returns for `c`.
pub uninterp spec fn char_alphanumeric(c: char) -> bool;

/// Relies on `char::is_alphabetic`: the result depends on the character
/// alone; ASCII letters are alphabetic, ASCII digits are not.
#[verifier::external_body]
pub(crate) fn is_alphabetic_char(c: char) -> (r: bool)
    ensures
        r == char_alphabetic(c),
        ascii_alpha(c) ==> r,
        ascii_digit(c) ==> !r,
{
    c.is_alphabetic()
}

/// Relies on `char::is_alphanumeric`: the result depends on the character
/// alone; ASCII letters and digits are alphanumeric.
#[verifier::external_body]
pub(crate) fn is_alphanumeric_char(c: char) -> (r: bool)
    ensures
        r == char_alphanumeric(c),
        ascii_alnum(c) ==> r,
{
    c.is_alphanumeric()
}

// ---------------------------------------------------------------------------
// Semantic versions.
// ---------------------------------------------------------------------------

/// The canonical text of the version that the semantic-version parser reads
/// from `s`, or `None` when it rejects `s`.
pub uninterp spec fn version_eval(s: Seq<char>) -> Option<Seq<char>>;

/// A character that canonical semantic-version text can contain.
pub open spec fn version_char(c: char) -> bool {
    ascii_alnum(c) || c == '.' || c == '-' || c == '+'
}

/// What the semantic-version parser guarantees of every canonical text it
/// produces: it is non-empty, starts with an ASCII digit (which is not
/// alphabetic), uses only version characters, and parses back to itself.
pub open spec fn version_text_canon(v: Seq<char>) -> bool {
    &&& v.len() >= 1
    &&& ascii_digit(v[0])
    &&& !char_alphabetic(v[0])
    &&& (forall|k: int| 0 <= k < v.len() ==> version_char(#[trigger] v[k]))
    &&& version_eval(v) == Some(v)
}

/// Relies on `semver::Version::parse` and its `Display`: `parse` accepts
/// exactly the canonical `major.minor.patch[-pre][+build]` text (ASCII
/// digits, letters, `.`, `-` and `+`, starting with the major version's
/// first digit, no leading zeros, nothing left over), and `Display` prints
/// that same text back, so the canonical text re-parses to itself.
#[verifier::external_body]
pub(crate) fn eval_version(s: &str) -> (r: Option<String>)
    ensures
        (r is Some) == (version_eval(s@) is Some),
        r matches Some(v) ==> version_eval(s@) == Some(v@) && version_text_canon(v@),
{
    match semver::Version::parse(s) {
        Ok(v) => Some(v.to_string()),
        Err(_) => None,
    }
}

// ---------------------------------------------------------------------------
// URLs.
// ---------------------------------------------------------------------------

/// The parts of the URL that the URL parser reads from `s`: the
/// fragment-free serialization `base`, the scheme, the host, the path, the
/// query and fragment if present, and the last path segment (absent when
/// the URL cannot be a base).
pub ghost struct UrlV {
    pub base: Seq<char>,
    pub scheme: Seq<char>,
    pub host: Seq<char>,
    pub path: Seq<char>,
    pub query: Option<Seq<char>>,
    pub fragment: Option<Seq<char>>,
    pub last_seg: Option<Seq<char>>,
}

/// What the URL parser returns for `s`, or `None` when it rejects `s`.
pub uninterp spec fn url_eval(s: Seq<char>) -> Option<UrlV>;

/// A character allowed in a URL scheme.
pub open spec fn scheme_char(c: char) -> bool {
    ascii_alnum(c) || c == '+' || c == '-' || c == '.'
}

/// Whether `s` starts with a `scheme:` prefix, as absolute URLs must.
pub open spec fn scheme_shape(s: Seq<char>) -> bool {
    exists|i: int|
        1 <= i < s.len() && #[trigger] s[i] == ':' && ascii_alpha(s[0]) && (forall|j: int|
            0 <= j < i ==> scheme_char(#[trigger] s[j]))
}

/// There is no `scheme:` prefix when the first `:`, if any, does not
/// qualify: every position before `b` is a scheme character other than
/// `:`, and at `b` either a non-scheme character stands, or a `:` that is
/// first or follows a non-alphabetic start.
proof fn lemma_scheme_shape_blocked(s: Seq<char>, b: int)
    requires
        0 <= b < s.len(),
        forall|j: int| 0 <= j < b ==> s[j] != ':',
        !(s[b] == ':' && 1 <= b && ascii_alpha(s[0])),
        s[b] == ':' || !scheme_char(s[b]),
    ensures
        !scheme_shape(s),
{
    if scheme_shape(s) {
        let i = choose|i: int|
            1 <= i < s.len() && #[trigger] s[i] == ':' && ascii_alpha(s[0]) && (forall|j: int|
                0 <= j < i ==> scheme_char(#[trigger] s[j]));
        if i < b {
            assert(s[i] == ':');
        } else if i > b {
            assert(scheme_char(s[b]));
        }
    }
}

/// A string without `:` has no `scheme:` prefix.
proof fn lemma_scheme_shape_no_colon(s: Seq<char>)
    requires
        forall|j: int| 0 <= j < s.len() ==> s[j] != ':',
    ensures
        !scheme_shape(s),
{
    if scheme_shape(s) {
        let i = choose|i: int|
            1 <= i < s.len() && #[trigger] s[i] == ':' && ascii_alpha(s[0]) && (forall|j: int|
                0 <= j < i ==> scheme_char(#[trigger] s[j]));
        assert(s[i] == ':');
    }
}

/// Whether `c` may stand in a URL scheme.
fn is_scheme_char(c: char) -> (r: bool)
    ensures
        r == scheme_char(c),
{
    ('a' <= c && c <= 'z') || ('A' <= c && c <= 'Z') || ('0' <= c && c <= '9') || c == '+' || c
        == '-' || c == '.'
}

/// Whether `s` starts with a `scheme:` prefix. Only such a string is
/// handed to the URL parser whole: this keeps the library's grammar
/// decisions in verified code (the URL parser itself would also strip
/// stray control characters and spaces before looking for a scheme).
pub(crate) fn check_scheme_shape(s: &str) -> (r: bool)
    ensures
        r == scheme_shape(s@),
{
    let n: usize = s.unicode_len();
    let mut i: usize = 0;
    while i < n
        invariant
            n == s@.len(),
            i <= n,
            forall|j: int| 0 <= j < i ==> scheme_char(#[trigger] s@[j]) && s@[j] != ':',
        decreases n - i,
    {
        let c = s.get_char(i);
        if c == ':' {
            if i >= 1 {
                let c0 = s.get_char(0);
                if ('a' <= c0 && c0 <= 'z') || ('A' <= c0 && c0 <= 'Z') {
                    proof {
                        assert(1 <= i < s@.len() && s@[i as int] == ':' && ascii_alpha(s@[0]) && (
                        forall|j: int| 0 <= j < i ==> scheme_char(#[trigger] s@[j])));
                    }
                    return true;
                }
            }
            proof {
                lemma_scheme_shape_blocked(s@, i as int);
            }
            return false;
        }
        if !is_scheme_char(c) {
            proof {
                lemma_scheme_shape_blocked(s@, i as int);
            }
            return false;
        }
        i += 1;
    }
    proof {
        lemma_scheme_shape_no_colon(s@);
    }
    false
}

/// A string with a `/` before any `:` has no `scheme:` prefix.
pub proof fn lemma_not_scheme_shape(s: Seq<char>, h: int)
    requires
        0 <= h < s.len(),
        s[h] == '/',
        forall|j: int| 0 <= j < h ==> s[j] != ':',
    ensures
        !scheme_shape(s),
{
    if scheme_shape(s) {
        let i = choose|i: int|
            1 <= i < s.len() && #[trigger] s[i] == ':' && ascii_alpha(s[0]) && (forall|j: int|
                0 <= j < i ==> scheme_char(#[trigger] s[j]));
        if i <= h {
            assert(s[i] == ':');
        } else {
            assert(scheme_char(s[h]));
        }
    }
}

/// A character that URL serialization keeps verbatim inside a fragment.
pub open spec fn plain_frag_char(c: char) -> bool {
    ascii_alnum(c) || c == '-' || c == '_' || c == '.' || c == '+' || c == ':'
}

pub open spec fn all_plain_frag(f: Seq<char>) -> bool {
    forall|k: int| 0 <= k < f.len() ==> plain_frag_char(#[trigger] f[k])
}

/// `u` with its fragment cleared.
pub open spec fn strip_frag(u: UrlV) -> UrlV {
    UrlV {
        base: u.base,
        scheme: u.scheme,
        host: u.host,
        path: u.path,
        query: u.query,
        fragment: None,
        last_seg: u.last_seg,
    }
}

/// `u` with its fragment set to `f`.
pub open spec fn with_frag(u: UrlV, f: Seq<char>) -> UrlV {
    UrlV {
        base: u.base,
        scheme: u.scheme,
        host: u.host,
        path: u.path,
        query: u.query,
        fragment: Some(f),
        last_seg: u.last_seg,
    }
}

/// What the URL parser guarantees of every URL it produces (see the
/// contract of `eval_url` for what each clause relies on). The re-parse
/// and fragment-append clauses are stated only of hierarchical URLs (those
/// with path segments): clearing a fragment may strip trailing spaces from
/// an opaque path, so only there is the serialization guaranteed inert.
pub open spec fn url_canon(u: UrlV) -> bool {
    &&& (u.last_seg is Some ==> url_eval(u.base) == Some(strip_frag(u)))
    &&& 1 <= u.scheme.len() && u.scheme.len() < u.base.len()
    &&& u.base.subrange(0, u.scheme.len() as int) == u.scheme
    &&& u.base[u.scheme.len() as int] == ':'
    &&& ascii_alpha(u.scheme[0])
    &&& (forall|j: int| 0 <= j < u.scheme.len() ==> scheme_char(#[trigger] u.scheme[j]))
    &&& (u.last_seg is Some ==> u.path.len() >= 1 && u.path[0] == '/' && seq_contains_char(
        u.base,
        '/',
    ))
    &&& (u.last_seg is Some ==> (forall|f: Seq<char>|
        f.len() >= 1 && all_plain_frag(f) ==> #[trigger] url_eval(u.base + seq!['#'] + f)
            == Some(with_frag(u, f))))
}

/// Clearing the fragment keeps every canonical fact.
pub proof fn lemma_url_canon_strip(u: UrlV)
    requires
        url_canon(u),
    ensures
        url_canon(strip_frag(u)),
{
    let t = strip_frag(u);
    assert(strip_frag(t) == t);
    if u.last_seg is Some {
        assert forall|f: Seq<char>| f.len() >= 1 && all_plain_frag(f) implies #[trigger] url_eval(
            t.base + seq!['#'] + f,
        ) == Some(with_frag(t, f)) by {
            assert(url_eval(u.base + seq!['#'] + f) == Some(with_frag(u, f)));
            assert(with_frag(u, f) == with_frag(t, f));
        }
    }
}

/// The plain parts of a parsed URL.
pub struct RawUrl {
    pub base: String,
    pub scheme: String,
    pub host: String,
    pub path: String,
    pub has_query: bool,
    pub fragment: Option<String>,
    pub last_seg: Option<String>,
}

pub open spec fn opt_str_view(o: Option<String>) -> Option<Seq<char>> {
    match o {
        Some(s) => Some(s@),
        None => None,
    }
}

/// Whether the plain parts `p` are the parts of `u`.
pub open spec fn raw_matches(p: RawUrl, u: UrlV) -> bool {
    &&& p.base@ == u.base
    &&& p.scheme@ == u.scheme
    &&& p.host@ == u.host
    &&& p.path@ == u.path
    &&& p.has_query == (u.query is Some)
    &&& opt_str_view(p.fragment) == u.fragment
    &&& opt_str_view(p.last_seg) == u.last_seg
}

/// Relies on `url::Url::parse` and the accessors `scheme`, `host_str`,
/// `path`, `query`, `fragment`, `path_segments`, `set_fragment` and
/// `as_str` of `url::Url`. The fragment is read first and then cleared, so
/// every other recorded part is a part of the fragment-free URL whose
/// serialization is `base` (clearing a fragment may strip trailing spaces
/// from an opaque path, which must not split the parts from `base`):
/// - `base` starts with the scheme and `:`; when `path_segments` is
///   present the path starts with `/` and the serialization, which
///   contains the path, contains `/`;
/// - for a URL with path segments, re-parsing `base` yields the same URL
///   with no fragment, and appending `#` and a non-empty fragment of
///   characters that URL serialization keeps verbatim yields the same URL
///   carrying exactly that fragment.
#[verifier::external_body]
pub(crate) fn eval_url(s: &str) -> (r: Option<RawUrl>)
    ensures
        (r is Some) == (url_eval(s@) is Some),
        r matches Some(p) ==> (url_eval(s@) matches Some(u) && raw_matches(p, u) && url_canon(u)),
{
    let mut u = match url::Url::parse(s) {
        Ok(u) => u,
        Err(_) => return None,
    };
    let fragment = u.fragment().map(|f| f.to_string());
    u.set_fragment(None);
    let last_seg = u.path_segments().and_then(|mut p| p.next_back()).map(|x| x.to_string());
    let has_query = u.query().is_some();
    let scheme = u.scheme().to_string();
    let host = u.host_str().unwrap_or("").to_string();
    let path = u.path().to_string();
    Some(RawUrl { base: u.as_str().to_string(), scheme, host, path, has_query, fragment, last_seg })
}

} // verus!
