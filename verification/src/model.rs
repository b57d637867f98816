//! The mathematical model of the specifier language: what `parse` accepts,
//! what `to_string` prints, and what `matches` decides.
use vstd::prelude::*;

verus! {

use crate::foreign::{char_alphabetic, char_alphanumeric, scheme_shape, url_eval, version_eval,
    version_text_canon, UrlV};
use crate::source::{spec_shown, src_of_uv, src_wf, SourceUrlV};
use crate::text::{first_index_of, has_scheme_sep, seq_contains_char};

/// The parsed form of a specifier: a name, an optional exact version (as
/// canonical text) and an optional source location.
pub ghost struct PackageIdSpecV {
    pub name: Seq<char>,
    pub version: Option<Seq<char>>,
    pub url: Option<SourceUrlV>,
}

/// A candidate package identifier: name, exact version, source location.
pub ghost struct PackageIdV {
    pub name: Seq<char>,
    pub version: Seq<char>,
    pub url: SourceUrlV,
}

/// Why a specifier string was rejected.
#[derive(Clone, Copy, PartialEq, Eq, Debug)]
pub enum ParseErrKind {
    /// The location carries a query string, which has no meaning here.
    QueryStringNotAllowed,
    /// The location has no path segments, or an empty final segment.
    MissingPath,
    /// A part that must be an exact version does not parse as one.
    InvalidVersion,
    /// A bare name fails the package-name validity rules, or an override
    /// name in a fragment is empty.
    InvalidName,
    /// The string contains a path separator but no absolute location can be
    /// read from it.
    InvalidUrl,
}

/// A character allowed in a package name.
pub open spec fn name_char_ok(c: char) -> bool {
    char_alphanumeric(c) || c == '-' || c == '_'
}

/// A valid package name: non-empty, alphanumerics, `-` and `_` only.
pub open spec fn valid_name(s: Seq<char>) -> bool {
    s.len() >= 1 && (forall|k: int| 0 <= k < s.len() ==> name_char_ok(#[trigger] s[k]))
}

/// The specifier carried by a location's parts: the fragment, if any,
/// overrides the name and may give a version.
pub open spec fn spec_from_url(u: UrlV) -> Result<PackageIdSpecV, ParseErrKind> {
    if u.query is Some {
        Err(ParseErrKind::QueryStringNotAllowed)
    } else if u.last_seg is None || u.last_seg->Some_0.len() == 0 {
        Err(ParseErrKind::MissingPath)
    } else {
        let pn = u.last_seg->Some_0;
        let src = src_of_uv(u);
        match u.fragment {
            None => Ok(PackageIdSpecV { name: pn, version: None, url: Some(src) }),
            Some(frag) => match first_index_of(frag, ':') {
                Some(i) => {
                    let head = frag.subrange(0, i);
                    let tail = frag.subrange(i + 1, frag.len() as int);
                    match version_eval(tail) {
                        Some(vt) => if head.len() == 0 {
                            Err(ParseErrKind::InvalidName)
                        } else {
                            Ok(PackageIdSpecV { name: head, version: Some(vt), url: Some(src) })
                        },
                        None => Err(ParseErrKind::InvalidVersion),
                    }
                },
                None => {
                    if frag.len() >= 1 && char_alphabetic(frag[0]) {
                        Ok(PackageIdSpecV { name: frag, version: None, url: Some(src) })
                    } else {
                        match version_eval(frag) {
                            Some(vt) => Ok(
                                PackageIdSpecV { name: pn, version: Some(vt), url: Some(src) },
                            ),
                            None => Err(ParseErrKind::InvalidVersion),
                        }
                    }
                },
            },
        }
    }
}

/// The bare form `name[:version]`.
pub open spec fn spec_parse_bare(s: Seq<char>) -> Result<PackageIdSpecV, ParseErrKind> {
    match first_index_of(s, ':') {
        Some(i) => {
            let head = s.subrange(0, i);
            let tail = s.subrange(i + 1, s.len() as int);
            match version_eval(tail) {
                Some(vt) => if valid_name(head) {
                    Ok(PackageIdSpecV { name: head, version: Some(vt), url: None })
                } else {
                    Err(ParseErrKind::InvalidName)
                },
                None => Err(ParseErrKind::InvalidVersion),
            }
        },
        None => if valid_name(s) {
            Ok(PackageIdSpecV { name: s, version: None, url: None })
        } else {
            Err(ParseErrKind::InvalidName)
        },
    }
}

/// The prefix synthesized for a location typed without a scheme.
pub open spec fn cargo_prefix() -> Seq<char> {
    "cargo://"@
}

/// What `parse` returns for the string `s`: a string with a path separator
/// is read as a location, absolute as typed or under a synthesized scheme;
/// anything else is read as `name[:version]`.
pub open spec fn spec_parse(s: Seq<char>) -> Result<PackageIdSpecV, ParseErrKind> {
    if seq_contains_char(s, '/') {
        if scheme_shape(s) && url_eval(s) is Some {
            spec_from_url(url_eval(s)->Some_0)
        } else if !has_scheme_sep(s) && url_eval(cargo_prefix() + s) is Some {
            spec_from_url(url_eval(cargo_prefix() + s)->Some_0)
        } else {
            Err(ParseErrKind::InvalidUrl)
        }
    } else {
        spec_parse_bare(s)
    }
}

/// Whether the formatter prints the name itself (rather than leaving it to
/// the location's final path segment).
pub open spec fn spec_prints_name(v: PackageIdSpecV) -> bool {
    match v.url {
        Some(u) => v.name != u.last_seg,
        None => true,
    }
}

/// What `to_string` prints for the parsed specifier `v`.
pub open spec fn spec_format(v: PackageIdSpecV) -> Seq<char> {
    let head = match v.url {
        Some(u) => if v.name != u.last_seg {
            spec_shown(u) + seq!['#'] + v.name
        } else {
            spec_shown(u)
        },
        None => v.name,
    };
    match v.version {
        Some(vt) => head + seq![if spec_prints_name(v) { ':' } else { '#' }] + vt,
        None => head,
    }
}

/// Whether the candidate `c` satisfies the specifier `v`: the names must
/// agree, and each field the specifier gives must agree exactly; absent
/// fields are wildcards.
pub open spec fn spec_matches(v: PackageIdSpecV, c: PackageIdV) -> bool {
    &&& v.name == c.name
    &&& (v.version matches Some(vt) ==> vt == c.version)
    &&& (v.url matches Some(u) ==> u.text == c.url.text)
}

/// The specifier that pins exactly the candidate `c`: its name, version and
/// source, all present.
pub open spec fn spec_of_id(c: PackageIdV) -> PackageIdSpecV {
    PackageIdSpecV { name: c.name, version: Some(c.version), url: Some(c.url) }
}

/// The shape facts that hold of everything `parse` accepts: the name is
/// non-empty; a version is held as canonical text; a source is well formed;
/// a name printed beside a source has no `:`, and one that stands alone in
/// a fragment starts with an alphabetic character; a bare name is valid and
/// has no `/` or `:`.
pub open spec fn parse_shaped(v: PackageIdSpecV) -> bool {
    &&& v.name.len() >= 1
    &&& (v.version matches Some(vt) ==> version_text_canon(vt))
    &&& (match v.url {
        Some(u) => {
            &&& src_wf(u)
            &&& u.last_seg.len() >= 1
            &&& (v.name != u.last_seg ==> !seq_contains_char(v.name, ':'))
            &&& (v.name != u.last_seg && v.version is None ==> char_alphabetic(v.name[0]))
        },
        None => {
            &&& valid_name(v.name)
            &&& !seq_contains_char(v.name, '/')
            &&& !seq_contains_char(v.name, ':')
        },
    })
}

} // verus!
