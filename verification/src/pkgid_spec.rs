//! The specifier type and its parser, formatter and matcher.
use vstd::prelude::*;

verus! {

use crate::foreign::{is_alphabetic_char, is_alphanumeric_char, raw_matches, url_canon, url_eval,
    RawUrl, UrlV};
use crate::model::{cargo_prefix, parse_shaped, spec_format, spec_from_url, spec_matches, spec_of_id,
    spec_parse, spec_parse_bare, spec_prints_name, valid_name, PackageIdSpecV, PackageIdV,
    ParseErrKind};
use crate::source::SourceUrl;
use crate::text::{contains_char, contains_scheme_sep, find_char, lemma_no_occurrence,
    seq_contains_char, str_eq_chars};
use crate::version::Version;
use vstd::string::StrSliceExecFns;
use vstd::string::StringExecFns;

/// A rejected specifier string: why, and the offending input.
#[derive(Debug)]
pub struct ParseError {
    pub kind: ParseErrKind,
    pub input: String,
}

/// Some or all of the data required to identify a package: the package
/// name (required), the exact package version (optional), and the package
/// source location (optional). Omitted fields are wildcards when matching.
#[derive(Debug, Hash)]
pub struct PackageIdSpec {
    name: String,
    version: Option<Version>,
    url: Option<SourceUrl>,
}

/// A fully resolved candidate package identity: name, exact version, and
/// the source location it came from. Supplied by the caller; this library
/// only reads it.
#[derive(Debug)]
pub struct PackageId {
    name: String,
    version: Version,
    url: SourceUrl,
}

impl View for PackageIdSpec {
    type V = PackageIdSpecV;

    closed spec fn view(&self) -> PackageIdSpecV {
        PackageIdSpecV {
            name: self.name@,
            version: match self.version {
                Some(v) => Some(v@),
                None => None,
            },
            url: match self.url {
                Some(u) => Some(u@),
                None => None,
            },
        }
    }
}

impl View for PackageId {
    type V = PackageIdV;

    closed spec fn view(&self) -> PackageIdV {
        PackageIdV { name: self.name@, version: self.version@, url: self.url@ }
    }
}

/// Whether the returned value and the modelled outcome agree: an accepted
/// specifier is the modelled one, and a rejection carries the modelled
/// error kind together with the whole input `s`.
pub open spec fn parse_outcome_is(
    r: Result<PackageIdSpec, ParseError>,
    m: Result<PackageIdSpecV, ParseErrKind>,
    s: Seq<char>,
) -> bool {
    match r {
        Ok(p) => m == Ok::<PackageIdSpecV, ParseErrKind>(p@),
        Err(e) => m is Err && m->Err_0 == e.kind && e.input@ == s,
    }
}

/// Checks a package name: non-empty, alphanumerics, `-` and `_` only.
pub fn validate_package_name(s: &str) -> (r: bool)
    ensures
        r == valid_name(s@),
{
    let n: usize = s.unicode_len();
    if n == 0 {
        return false;
    }
    let mut i: usize = 0;
    while i < n
        invariant
            n == s@.len(),
            i <= n,
            forall|j: int| 0 <= j < i ==> crate::model::name_char_ok(#[trigger] s@[j]),
        decreases n - i,
    {
        let c = s.get_char(i);
        if !(is_alphanumeric_char(c) || c == '-' || c == '_') {
            return false;
        }
        i += 1;
    }
    true
}

/// The bare form `name[:version]`.
fn parse_bare(s: &str) -> (r: Result<PackageIdSpec, ParseError>)
    requires
        !seq_contains_char(s@, '/'),
    ensures
        parse_outcome_is(r, spec_parse_bare(s@), s@),
        r matches Ok(p) ==> parse_shaped(p@) && p@.url is None,
{
    proof {
        crate::text::lemma_first_index_of(s@, '/');
    }
    match find_char(s, ':') {
        Some(i) => {
            let n: usize = s.unicode_len();
            let head = s.substring_char(0, i);
            let tail = s.substring_char(i + 1, n);
            match Version::parse(tail) {
                Some(v) => {
                    if validate_package_name(head) {
                        proof {
                            use_type_invariant(&v);
                            assert(forall|j: int|
                                0 <= j < head@.len() ==> head@[j] == s@[j]);
                            lemma_no_occurrence(head@, '/');
                            lemma_no_occurrence(head@, ':');
                        }
                        Ok(PackageIdSpec { name: head.to_owned(), version: Some(v), url: None })
                    } else {
                        Err(ParseError { kind: ParseErrKind::InvalidName, input: s.to_owned() })
                    }
                },
                None => Err(ParseError { kind: ParseErrKind::InvalidVersion, input: s.to_owned() }),
            }
        },
        None => {
            if validate_package_name(s) {
                proof {
                    lemma_no_occurrence(s@, '/');
                    lemma_no_occurrence(s@, ':');
                }
                Ok(PackageIdSpec { name: s.to_owned(), version: None, url: None })
            } else {
                Err(ParseError { kind: ParseErrKind::InvalidName, input: s.to_owned() })
            }
        },
    }
}

/// The location form, once a location has been read: the fragment, if any,
/// overrides the name and may give a version.
fn build_from_url(raw: RawUrl, s: &str, Ghost(u): Ghost<UrlV>) -> (r: Result<
    PackageIdSpec,
    ParseError,
>)
    requires
        raw_matches(raw, u),
        url_canon(u),
    ensures
        parse_outcome_is(r, spec_from_url(u), s@),
        r matches Ok(p) ==> parse_shaped(p@),
{
    let RawUrl { base, scheme, host, path, has_query, fragment, last_seg } = raw;
    if has_query {
        return Err(ParseError { kind: ParseErrKind::QueryStringNotAllowed, input: s.to_owned() });
    }
    let pn = match last_seg {
        Some(pn) => pn,
        None => {
            return Err(ParseError { kind: ParseErrKind::MissingPath, input: s.to_owned() });
        },
    };
    if pn.unicode_len() == 0 {
        return Err(ParseError { kind: ParseErrKind::MissingPath, input: s.to_owned() });
    }
    let src = SourceUrl::from_parts(base, scheme, host, path, pn.clone(), Ghost(u));
    proof {
        use_type_invariant(&src);
    }
    match fragment {
        None => Ok(PackageIdSpec { name: pn, version: None, url: Some(src) }),
        Some(frag) => {
            let fs: &str = frag.as_str();
            match find_char(fs, ':') {
                Some(i) => {
                    let m: usize = fs.unicode_len();
                    let head = fs.substring_char(0, i);
                    let tail = fs.substring_char(i + 1, m);
                    match Version::parse(tail) {
                        Some(v) => {
                            if head.unicode_len() == 0 {
                                Err(
                                    ParseError {
                                        kind: ParseErrKind::InvalidName,
                                        input: s.to_owned(),
                                    },
                                )
                            } else {
                                proof {
                                    use_type_invariant(&v);
                                    assert(forall|j: int|
                                        0 <= j < head@.len() ==> head@[j] == fs@[j]);
                                    lemma_no_occurrence(head@, ':');
                                }
                                Ok(
                                    PackageIdSpec {
                                        name: head.to_owned(),
                                        version: Some(v),
                                        url: Some(src),
                                    },
                                )
                            }
                        },
                        None => Err(
                            ParseError { kind: ParseErrKind::InvalidVersion, input: s.to_owned() },
                        ),
                    }
                },
                None => {
                    if fs.unicode_len() > 0 && is_alphabetic_char(fs.get_char(0)) {
                        proof {
                            lemma_no_occurrence(fs@, ':');
                        }
                        Ok(PackageIdSpec { name: frag, version: None, url: Some(src) })
                    } else {
                        match Version::parse(fs) {
                            Some(v) => {
                                proof {
                                    use_type_invariant(&v);
                                }
                                Ok(PackageIdSpec { name: pn, version: Some(v), url: Some(src) })
                            },
                            None => Err(
                                ParseError {
                                    kind: ParseErrKind::InvalidVersion,
                                    input: s.to_owned(),
                                },
                            ),
                        }
                    }
                },
            }
        },
    }
}

impl PackageIdSpec {
    /// Builds a specifier from its parts.
    pub fn new(name: &str, version: Option<Version>, url: Option<SourceUrl>) -> (r: PackageIdSpec)
        ensures
            r@ == (PackageIdSpecV {
                name: name@,
                version: match version {
                    Some(v) => Some(v@),
                    None => None,
                },
                url: match url {
                    Some(u) => Some(u@),
                    None => None,
                },
            }),
    {
        PackageIdSpec { name: name.to_owned(), version, url }
    }

    /// Parses a specifier string: a string with a path separator is read as
    /// a location, absolute as typed or under a synthesized scheme;
    /// anything else is read as `name[:version]`.
    pub fn parse(s: &str) -> (r: Result<PackageIdSpec, ParseError>)
        ensures
            parse_outcome_is(r, spec_parse(s@), s@),
            r matches Ok(p) ==> parse_shaped(p@),
            r matches Ok(p) ==> (crate::laws::round_trip_ready(p@) ==> spec_parse(spec_format(p@))
                == Ok::<PackageIdSpecV, ParseErrKind>(p@)),
    {
        let r = if contains_char(s, '/') {
            let whole = if crate::foreign::check_scheme_shape(s) {
                crate::foreign::eval_url(s)
            } else {
                None
            };
            match whole {
                Some(raw) => {
                    let ghost u = url_eval(s@)->Some_0;
                    build_from_url(raw, s, Ghost(u))
                },
                None => {
                    if !contains_scheme_sep(s) {
                        let mut pref = String::from_str("cargo://");
                        pref.append(s);
                        match crate::foreign::eval_url(pref.as_str()) {
                            Some(raw) => {
                                let ghost u = url_eval(cargo_prefix() + s@)->Some_0;
                                build_from_url(raw, s, Ghost(u))
                            },
                            None => Err(
                                ParseError { kind: ParseErrKind::InvalidUrl, input: s.to_owned() },
                            ),
                        }
                    } else {
                        Err(ParseError { kind: ParseErrKind::InvalidUrl, input: s.to_owned() })
                    }
                },
            }
        } else {
            parse_bare(s)
        };
        proof {
            if r is Ok {
                crate::laws::lemma_canonical_round_trip(r->Ok_0@);
            }
        }
        r
    }

    /// The package name asked for.
    pub fn name(&self) -> (r: &str)
        ensures
            r@ == self@.name,
    {
        self.name.as_str()
    }

    /// The exact version asked for, if any.
    pub fn version(&self) -> (r: Option<&Version>)
        ensures
            match r {
                Some(v) => self@.version == Some(v@),
                None => self@.version is None,
            },
    {
        self.version.as_ref()
    }

    /// The source location asked for, if any.
    pub fn url(&self) -> (r: Option<&SourceUrl>)
        ensures
            match r {
                Some(u) => self@.url == Some(u@),
                None => self@.url is None,
            },
    {
        self.url.as_ref()
    }

    /// Pins this specifier to the given source location.
    pub fn set_url(&mut self, url: SourceUrl)
        ensures
            final(self)@ == (PackageIdSpecV { url: Some(url@), ..old(self)@ }),
    {
        self.url = Some(url);
    }

    /// The specifier that pins exactly the candidate `package_id`: its
    /// name, version and source, all present.
    pub fn from_package_id(package_id: &PackageId) -> (r: PackageIdSpec)
        ensures
            r@ == spec_of_id(package_id@),
            spec_matches(r@, package_id@),
    {
        proof {
            use_type_invariant(&package_id.version);
            use_type_invariant(&package_id.url);
            crate::laws::lemma_from_candidate_matches(package_id@);
            crate::laws::lemma_from_candidate_round_trips(package_id@);
        }
        PackageIdSpec {
            name: package_id.name.clone(),
            version: Some(package_id.version.clone()),
            url: Some(package_id.url.clone()),
        }
    }

    /// Whether the candidate `package_id` satisfies this specifier: the
    /// names must agree, and each field this specifier gives must agree
    /// exactly; absent fields are wildcards.
    pub fn matches(&self, package_id: &PackageId) -> (r: bool)
        ensures
            r == spec_matches(self@, package_id@),
    {
        if !str_eq_chars(self.name.as_str(), package_id.name.as_str()) {
            return false;
        }
        if let Some(v) = &self.version {
            if !(*v == package_id.version) {
                return false;
            }
        }
        if let Some(u) = &self.url {
            if !str_eq_chars(u.as_text(), package_id.url.as_text()) {
                return false;
            }
        }
        true
    }

    /// Renders the canonical text of this specifier, the form `parse` reads
    /// back: the source location (scheme-less when it carries the reserved
    /// synthetic scheme), `#name` when the name is not the location's final
    /// path segment, and the version after `:` (or after `#` when the name
    /// was not printed).
    pub fn to_string(&self) -> (r: String)
        ensures
            r@ == spec_format(self@),
    {
        let mut out = String::new();
        let mut printed = false;
        proof {
            reveal_strlit("#");
            reveal_strlit(":");
        }
        match &self.url {
            Some(u) => {
                let shown = u.shown();
                out.append(shown.as_str());
                if !str_eq_chars(u.last_segment(), self.name.as_str()) {
                    printed = true;
                    out.append("#");
                    out.append(self.name.as_str());
                }
            },
            None => {
                printed = true;
                out.append(self.name.as_str());
            },
        }
        match &self.version {
            Some(v) => {
                proof {
                    assert(printed == spec_prints_name(self@));
                }
                if printed {
                    out.append(":");
                } else {
                    out.append("#");
                }
                out.append(v.as_text());
            },
            None => {},
        }
        out
    }
}

impl PackageId {
    /// Builds a candidate identity; fails when `version` is not an exact
    /// canonical version.
    pub fn new(name: &str, version: &str, source: SourceUrl) -> (r: Option<PackageId>)
        ensures
            (r is Some) == (crate::foreign::version_eval(version@) is Some),
            r matches Some(p) ==> p@ == (PackageIdV {
                name: name@,
                version: crate::foreign::version_eval(version@)->Some_0,
                url: source@,
            }),
    {
        match Version::parse(version) {
            Some(v) => Some(PackageId { name: name.to_owned(), version: v, url: source }),
            None => None,
        }
    }

    /// The candidate's name.
    pub fn name(&self) -> (r: &str)
        ensures
            r@ == self@.name,
    {
        self.name.as_str()
    }

    /// The candidate's exact version.
    pub fn version(&self) -> (r: &Version)
        ensures
            r@ == self@.version,
    {
        &self.version
    }

    /// The source location the candidate came from.
    pub fn source_url(&self) -> (r: &SourceUrl)
        ensures
            r@ == self@.url,
    {
        &self.url
    }

    /// Every candidate holds a canonical version text and a well-formed
    /// source; callers may recover these facts.
    pub fn wf_facts(&self)
        ensures
            crate::foreign::version_text_canon(self@.version),
            crate::source::src_wf(self@.url),
    {
        proof {
            use_type_invariant(&self.version);
            use_type_invariant(&self.url);
        }
    }
}

impl Clone for PackageIdSpec {
    fn clone(&self) -> (r: Self)
        ensures
            r@ == self@,
    {
        PackageIdSpec {
            name: self.name.clone(),
            version: match &self.version {
                Some(v) => Some(v.clone()),
                None => None,
            },
            url: match &self.url {
                Some(u) => Some(u.clone()),
                None => None,
            },
        }
    }
}

impl Clone for PackageId {
    fn clone(&self) -> (r: Self)
        ensures
            r@ == self@,
    {
        PackageId {
            name: self.name.clone(),
            version: self.version.clone(),
            url: self.url.clone(),
        }
    }
}

impl PartialEq for PackageIdSpec {
    fn eq(&self, other: &Self) -> (r: bool) {
        let vn = match (&self.version, &other.version) {
            (Some(a), Some(b)) => *a == *b,
            (None, None) => true,
            _ => false,
        };
        let un = match (&self.url, &other.url) {
            (Some(a), Some(b)) => *a == *b,
            (None, None) => true,
            _ => false,
        };
        self.name == other.name && vn && un
    }
}

impl vstd::std_specs::cmp::PartialEqSpecImpl for PackageIdSpec {
    open spec fn obeys_eq_spec() -> bool {
        true
    }

    open spec fn eq_spec(&self, other: &PackageIdSpec) -> bool {
        &&& self@.name == other@.name
        &&& (match (self@.version, other@.version) {
            (Some(a), Some(b)) => a == b,
            (None, None) => true,
            _ => false,
        })
        &&& (match (self@.url, other@.url) {
            (Some(a), Some(b)) => a.text == b.text,
            (None, None) => true,
            _ => false,
        })
    }
}

} // verus!
