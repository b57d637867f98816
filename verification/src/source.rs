//! Source locations: absolute URLs held as the plain parts the grammar and
//! the formatter read.
use vstd::prelude::*;

verus! {

use crate::foreign::{
    eval_url, lemma_url_canon_strip, strip_frag, url_canon, url_eval, UrlV,
};
use crate::text::str_eq_chars;
use vstd::string::StringExecFns;

/// The scheme reserved for locations typed without one.
pub open spec fn cargo_scheme() -> Seq<char> {
    "cargo"@
}

/// What the canonical formatter renders for a source location.
pub open spec fn spec_shown(s: SourceUrlV) -> Seq<char> {
    if s.scheme == cargo_scheme() {
        s.host + s.path
    } else {
        s.text
    }
}

/// The view of a source location: the fragment-free canonical serialization
/// together with the parts of it that the grammar and the formatter read.
pub ghost struct SourceUrlV {
    pub text: Seq<char>,
    pub scheme: Seq<char>,
    pub host: Seq<char>,
    pub path: Seq<char>,
    pub last_seg: Seq<char>,
}

/// The URL parts that a well-formed source location stands for: its own
/// serialization, no query, no fragment, and a path with segments.
pub open spec fn src_uv(s: SourceUrlV) -> UrlV {
    UrlV {
        base: s.text,
        scheme: s.scheme,
        host: s.host,
        path: s.path,
        query: None,
        fragment: None,
        last_seg: Some(s.last_seg),
    }
}

/// A well-formed source location: the URL parser maps its serialization
/// back to exactly its parts.
pub open spec fn src_wf(s: SourceUrlV) -> bool {
    url_eval(s.text) == Some(src_uv(s)) && url_canon(src_uv(s))
}

/// The source location carried by the URL parts `u`, which must have a last
/// path segment.
pub open spec fn src_of_uv(u: UrlV) -> SourceUrlV {
    SourceUrlV {
        text: u.base,
        scheme: u.scheme,
        host: u.host,
        path: u.path,
        last_seg: u.last_seg->Some_0,
    }
}

/// The origin a package came from: an absolute location with no query
/// string, compared by normalized serialization equality.
#[derive(Debug, Hash)]
pub struct SourceUrl {
    text: String,
    scheme: String,
    host: String,
    path: String,
    last_seg: String,
}

impl View for SourceUrl {
    type V = SourceUrlV;

    closed spec fn view(&self) -> SourceUrlV {
        SourceUrlV {
            text: self.text@,
            scheme: self.scheme@,
            host: self.host@,
            path: self.path@,
            last_seg: self.last_seg@,
        }
    }
}

impl SourceUrl {
    #[verifier::type_invariant]
    pub open spec fn inv(self) -> bool {
        src_wf(self.view())
    }

    /// Builds a source location from the parts of a parsed URL that carries
    /// no query and has a last path segment; any fragment has already been
    /// split off.
    pub(crate) fn from_parts(
        text: String,
        scheme: String,
        host: String,
        path: String,
        last_seg: String,
        Ghost(u): Ghost<UrlV>,
    ) -> (r: SourceUrl)
        requires
            text@ == u.base,
            scheme@ == u.scheme,
            host@ == u.host,
            path@ == u.path,
            u.last_seg == Some(last_seg@),
            url_canon(u),
            u.query is None,
        ensures
            r@ == src_of_uv(u),
    {
        let src = SourceUrl { text, scheme, host, path, last_seg };
        proof {
            assert(src_uv(src@) == strip_frag(u));
            lemma_url_canon_strip(u);
        }
        src
    }

    /// Parses an absolute source location, rejecting one that carries a
    /// query string or whose path has no segments; a fragment is dropped.
    pub fn parse(s: &str) -> (r: Option<SourceUrl>)
        ensures
            (r is Some) == (url_eval(s@) matches Some(u) && u.query is None && u.last_seg is Some),
            r matches Some(src) ==> src@ == src_of_uv(url_eval(s@)->Some_0),
    {
        match eval_url(s) {
            Some(raw) => {
                if raw.has_query {
                    None
                } else {
                    let ghost u = url_eval(s@)->Some_0;
                    match raw.last_seg {
                        Some(ls) => Some(
                            SourceUrl::from_parts(raw.base, raw.scheme, raw.host, raw.path, ls, Ghost(u)),
                        ),
                        None => None,
                    }
                }
            },
            None => None,
        }
    }

    /// How the canonical formatter renders this location: a location under
    /// the reserved synthetic scheme is shown as host and path only, to
    /// match the scheme-less way it was typed; any other is shown in full.
    pub fn shown(&self) -> (r: String)
        ensures
            r@ == spec_shown(self@),
    {
        if str_eq_chars(self.scheme.as_str(), "cargo") {
            let mut t = self.host.clone();
            t.append(self.path.as_str());
            t
        } else {
            self.text.clone()
        }
    }

    /// The fragment-free canonical serialization of this location.
    pub fn as_text(&self) -> (r: &str)
        ensures
            r@ == self@.text,
    {
        self.text.as_str()
    }

    /// The final path segment of this location.
    pub fn last_segment(&self) -> (r: &str)
        ensures
            r@ == self@.last_seg,
    {
        self.last_seg.as_str()
    }

}

impl Clone for SourceUrl {
    fn clone(&self) -> (r: Self)
        ensures
            r@ == self@,
    {
        proof {
            use_type_invariant(self);
        }
        SourceUrl {
            text: self.text.clone(),
            scheme: self.scheme.clone(),
            host: self.host.clone(),
            path: self.path.clone(),
            last_seg: self.last_seg.clone(),
        }
    }
}

impl PartialEq for SourceUrl {
    fn eq(&self, other: &Self) -> (r: bool) {
        self.text == other.text
    }
}

impl vstd::std_specs::cmp::PartialEqSpecImpl for SourceUrl {
    open spec fn obeys_eq_spec() -> bool {
        true
    }

    open spec fn eq_spec(&self, other: &SourceUrl) -> bool {
        self@.text == other@.text
    }
}

} // verus!
