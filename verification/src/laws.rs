//! The laws this library keeps, stated over the model and proved once for
//! all inputs.
use vstd::prelude::*;

verus! {

use crate::foreign::{all_plain_frag, ascii_alnum, lemma_not_scheme_shape, plain_frag_char,
    scheme_char, scheme_shape, url_eval, version_char, version_text_canon, with_frag, UrlV};
use crate::model::{cargo_prefix, parse_shaped, spec_format, spec_from_url, spec_matches, spec_of_id,
    spec_parse, spec_parse_bare, valid_name, PackageIdSpecV, PackageIdV, ParseErrKind};
use crate::source::{cargo_scheme, spec_shown, src_of_uv, src_uv, src_wf, SourceUrlV};
use crate::text::{first_index_of, has_scheme_sep, lemma_contains_at, lemma_contains_concat_left,
    lemma_first_index_at, lemma_first_index_of, lemma_no_occurrence, lemma_no_sep_concat,
    lemma_not_contains_concat, seq_contains_char};

/// A character that may stand in a printed name without URL serialization
/// changing it: ASCII alphanumerics, `-`, `_` and `.`.
pub open spec fn name_frag_char(c: char) -> bool {
    ascii_alnum(c) || c == '-' || c == '_' || c == '.'
}

pub open spec fn all_name_frag(s: Seq<char>) -> bool {
    forall|k: int| 0 <= k < s.len() ==> name_frag_char(#[trigger] s[k])
}

/// The specifiers whose canonical form is guaranteed to re-parse to them.
/// A bare specifier always does. One with a source does unless URL
/// serialization would rewrite what the formatter prints: a printed name
/// must keep to characters a fragment carries verbatim, and a location
/// under the reserved synthetic scheme must serialize as exactly that
/// scheme, its host and its path, with no `:` in the host and no `://`
/// hidden in host and path.
pub open spec fn round_trip_ready(v: PackageIdSpecV) -> bool {
    match v.url {
        None => true,
        Some(u) => {
            &&& (v.name != u.last_seg ==> all_name_frag(v.name))
            &&& (u.scheme == cargo_scheme() ==> {
                &&& u.text == cargo_prefix() + u.host + u.path
                &&& !seq_contains_char(u.host, ':')
                &&& !has_scheme_sep(u.host + u.path)
            })
        },
    }
}

/// Canonical version text contains only fragment-safe characters and none
/// of the grammar's separators.
proof fn lemma_version_chars(vt: Seq<char>)
    requires
        forall|k: int| 0 <= k < vt.len() ==> version_char(#[trigger] vt[k]),
    ensures
        all_plain_frag(vt),
        !seq_contains_char(vt, '/'),
        !seq_contains_char(vt, ':'),
        forall|k: int| 0 <= k < vt.len() ==> vt[k] != ':',
{
    assert forall|k: int| 0 <= k < vt.len() implies plain_frag_char(#[trigger] vt[k]) by {
        assert(version_char(vt[k]));
    }
    assert forall|k: int| 0 <= k < vt.len() implies vt[k] != '/' by {
        assert(version_char(vt[k]));
    }
    assert forall|k: int| 0 <= k < vt.len() implies vt[k] != ':' by {
        assert(version_char(vt[k]));
    }
    lemma_no_occurrence(vt, '/');
    lemma_no_occurrence(vt, ':');
}

/// A fragment-printable name contains only fragment-safe characters and no
/// path separator.
proof fn lemma_name_chars(nm: Seq<char>)
    requires
        all_name_frag(nm),
    ensures
        all_plain_frag(nm),
        !seq_contains_char(nm, '/'),
    {
    assert forall|k: int| 0 <= k < nm.len() implies plain_frag_char(#[trigger] nm[k]) by {
        assert(name_frag_char(nm[k]));
    }
    assert forall|k: int| 0 <= k < nm.len() implies nm[k] != '/' by {
        assert(name_frag_char(nm[k]));
    }
    lemma_no_occurrence(nm, '/');
}

/// The bare canonical form `name[:version]` re-parses to the specifier it
/// was printed from.
proof fn lemma_bare_round_trip(v: PackageIdSpecV)
    requires
        parse_shaped(v),
        v.url is None,
    ensures
        spec_parse(spec_format(v)) == Ok::<PackageIdSpecV, ParseErrKind>(v),
{
    let nm = v.name;
    lemma_first_index_of(nm, ':');
    lemma_first_index_of(nm, '/');
    match v.version {
        None => {
            let out = spec_format(v);
            assert(out == nm);
            assert(!seq_contains_char(out, '/'));
            assert(spec_parse_bare(out) == Ok::<PackageIdSpecV, ParseErrKind>(v));
        },
        Some(vt) => {
            let out = spec_format(v);
            let mid = seq![':'];
            assert(out == nm + mid + vt);
            lemma_version_chars(vt);
            assert(!seq_contains_char(mid, '/')) by {
                assert(forall|k: int| 0 <= k < mid.len() ==> mid[k] == ':');
                lemma_no_occurrence(mid, '/');
            }
            lemma_not_contains_concat(nm, mid, '/');
            lemma_not_contains_concat(nm + mid, vt, '/');
            assert((nm + mid) + vt == out);
            assert(!seq_contains_char(out, '/'));
            // the first `:` stands exactly after the name
            let l = nm.len() as int;
            assert(out[l] == ':');
            assert(forall|j: int| 0 <= j < l ==> out[j] == nm[j]);
            lemma_first_index_at(out, ':', l);
            assert(out.subrange(0, l) =~= nm);
            assert(out.subrange(l + 1, out.len() as int) =~= vt);
            assert(spec_parse_bare(out) == Ok::<PackageIdSpecV, ParseErrKind>(v));
        },
    }
}

/// The location canonical form re-parses to the specifier it was printed
/// from, on round-trip-ready specifiers.
proof fn lemma_location_round_trip(v: PackageIdSpecV, u: SourceUrlV)
    requires
        parse_shaped(v),
        v.url == Some(u),
        round_trip_ready(v),
    ensures
        spec_parse(spec_format(v)) == Ok::<PackageIdSpecV, ParseErrKind>(v),
{
    let uv = src_uv(u);
    let shown = spec_shown(u);
    let printed = v.name != u.last_seg;
    let out = spec_format(v);
    let pound = seq!['#'];

    // the fragment the formatter appends, if any
    let frag: Option<Seq<char>> = if printed && v.version is Some {
        Some(v.name + seq![':'] + v.version->Some_0)
    } else if printed {
        Some(v.name)
    } else if v.version is Some {
        Some(v.version->Some_0)
    } else {
        None
    };
    match frag {
        Some(f) => {
            assert(out =~= shown + pound + f);
        },
        None => {
            assert(out == shown);
        },
    }

    // the fragment is non-empty, fragment-safe, has no `/`, and splits at
    // the first `:` exactly as the formatter composed it
    if frag is Some {
        let f = frag->Some_0;
        assert(f.len() >= 1);
        if printed {
            lemma_name_chars(v.name);
            lemma_first_index_of(v.name, ':');
        }
        if v.version is Some {
            lemma_version_chars(v.version->Some_0);
        }
        assert(all_plain_frag(f)) by {
            if printed && v.version is Some {
                let vt = v.version->Some_0;
                assert(forall|k: int|
                    0 <= k < f.len() ==> f[k] == (v.name + seq![':'] + vt)[k]);
                assert forall|k: int| 0 <= k < f.len() implies plain_frag_char(#[trigger] f[k]) by {
                    let l = v.name.len() as int;
                    if k < l {
                        assert(f[k] == v.name[k]);
                    } else if k == l {
                        assert(f[k] == ':');
                    } else {
                        assert(f[k] == vt[k - l - 1]);
                    }
                }
            }
        }
        assert(!seq_contains_char(f, '/')) by {
            if printed && v.version is Some {
                let vt = v.version->Some_0;
                let mid = seq![':'];
                assert(!seq_contains_char(mid, '/')) by {
                    lemma_no_occurrence(mid, '/');
                }
                lemma_not_contains_concat(v.name, mid, '/');
                lemma_not_contains_concat(v.name + mid, vt, '/');
                assert((v.name + mid) + vt == f);
            }
        }
    }

    // where the re-parse finds the URL
    let reparsed: UrlV = match frag {
        Some(f) => with_frag(uv, f),
        None => uv,
    };
    if u.scheme == cargo_scheme() {
        // `shown` is host + path; the string has no scheme, so the re-parse
        // synthesizes the reserved one and lands on the same serialization
        assert(shown == u.host + u.path);
        let h = u.host.len() as int;
        assert(uv.path[0] == '/');
        assert(shown[h] == '/');
        assert(out[h] == '/');
        assert(forall|j: int| 0 <= j < h ==> out[j] == u.host[j]);
        lemma_first_index_of(u.host, ':');
        lemma_not_scheme_shape(out, h);
        lemma_contains_at(out, '/', h);
        match frag {
            Some(f) => {
                assert(!seq_contains_char(pound + f, '/')) by {
                    lemma_no_occurrence(pound, '/');
                    lemma_not_contains_concat(pound, f, '/');
                }
                lemma_no_sep_concat(shown, pound + f);
                assert(shown + (pound + f) =~= out);
                assert(cargo_prefix() + out =~= u.text + pound + f);
                assert(url_eval(u.text + pound + f) == Some(with_frag(uv, f)));
            },
            None => {
                assert(cargo_prefix() + out =~= u.text);
                assert(url_eval(u.text) == Some(uv));
            },
        }
        assert(url_eval(cargo_prefix() + out) == Some(reparsed));
        assert(spec_parse(out) == spec_from_url(reparsed));
    } else {
        // `shown` is the full serialization, which carries its scheme
        assert(shown == u.text);
        let l = uv.scheme.len() as int;
        // `out` extends the serialization, so it keeps the scheme prefix
        assert(forall|j: int| 0 <= j < u.text.len() ==> out[j] == u.text[j]) by {
            match frag {
                Some(f) => {
                    assert(out =~= u.text + pound + f);
                    assert(forall|j: int|
                        0 <= j < u.text.len() ==> (u.text + pound + f)[j] == u.text[j]);
                },
                None => {},
            }
        }
        assert(uv.base.subrange(0, l) == uv.scheme);
        assert(forall|j: int| 0 <= j < l ==> uv.scheme[j] == uv.base.subrange(0, l)[j]);
        assert(out.len() > l);
        assert(out[l] == ':');
        assert(crate::foreign::ascii_alpha(out[0])) by {
            assert(out[0] == uv.base[0]);
            assert(uv.scheme[0] == uv.base[0]);
        }
        assert(forall|j: int| 0 <= j < l ==> scheme_char(#[trigger] out[j])) by {
            assert(forall|j: int| 0 <= j < l ==> out[j] == uv.base[j]);
            assert(forall|j: int| 0 <= j < l ==> uv.base[j] == uv.scheme[j]);
        }
        assert(scheme_shape(out)) by {
            assert(1 <= l < out.len() && out[l] == ':' && crate::foreign::ascii_alpha(out[0]) && (
            forall|j: int| 0 <= j < l ==> scheme_char(#[trigger] out[j])));
        }
        match frag {
            Some(f) => {
                assert(out =~= u.text + pound + f);
                assert(url_eval(u.text + pound + f) == Some(with_frag(uv, f)));
                assert(seq_contains_char(u.text, '/'));
                lemma_contains_concat_left(u.text, pound + f, '/');
                assert(u.text + (pound + f) =~= out);
            },
            None => {
                assert(url_eval(u.text) == Some(uv));
                assert(seq_contains_char(out, '/'));
            },
        }
        assert(url_eval(out) == Some(reparsed));
        assert(spec_parse(out) == spec_from_url(reparsed));
    }

    // the re-parsed URL rebuilds the same specifier
    assert(reparsed.query is None);
    assert(reparsed.last_seg == Some(u.last_seg));
    assert(u.last_seg.len() >= 1);
    assert(src_of_uv(reparsed) == u);
    match frag {
        Some(f) => {
            if printed && v.version is Some {
                let vt = v.version->Some_0;
                let l = v.name.len() as int;
                assert(f[l] == ':');
                assert(forall|j: int| 0 <= j < l ==> f[j] == v.name[j]);
                lemma_first_index_at(f, ':', l);
                assert(f.subrange(0, l) =~= v.name);
                assert(f.subrange(l + 1, f.len() as int) =~= vt);
            } else if printed {
                assert(first_index_of(f, ':') is None);
                assert(f[0] == v.name[0]);
            } else {
                let vt = v.version->Some_0;
                assert(first_index_of(f, ':') is None) by {
                    lemma_no_occurrence(f, ':');
                }
                assert(!crate::foreign::char_alphabetic(f[0]));
            }
        },
        None => {},
    }
    assert(spec_from_url(reparsed) == Ok::<PackageIdSpecV, ParseErrKind>(v));
}

/// **Round trip.** The canonical text of everything `parse` accepts parses
/// back to the same specifier, on round-trip-ready specifiers (URL
/// normalization can rewrite others while they are first parsed, not when
/// the canonical form is re-read).
pub proof fn lemma_canonical_round_trip(v: PackageIdSpecV)
    requires
        parse_shaped(v),
    ensures
        round_trip_ready(v) ==> spec_parse(spec_format(v)) == Ok::<PackageIdSpecV, ParseErrKind>(
            v,
        ),
{
    if round_trip_ready(v) {
        match v.url {
            None => lemma_bare_round_trip(v),
            Some(u) => lemma_location_round_trip(v, u),
        }
    }
}

/// **Reflexivity, first half.** The specifier derived from a candidate
/// matches that candidate.
pub proof fn lemma_from_candidate_matches(c: PackageIdV)
    ensures
        spec_matches(spec_of_id(c), c),
{
}

/// **Reflexivity, second half.** The canonical form of the specifier
/// derived from a candidate round-trips, for a well-formed candidate whose
/// name stays clear of the grammar's separators.
pub proof fn lemma_from_candidate_round_trips(c: PackageIdV)
    requires
        version_text_canon(c.version),
        src_wf(c.url),
    ensures
        (c.name.len() >= 1 && c.url.last_seg.len() >= 1 && (c.name != c.url.last_seg
            ==> !seq_contains_char(c.name, ':')) && round_trip_ready(spec_of_id(c)))
            ==> spec_parse(spec_format(spec_of_id(c))) == Ok::<PackageIdSpecV, ParseErrKind>(
            spec_of_id(c),
        ),
{
    let v = spec_of_id(c);
    if c.name.len() >= 1 && c.url.last_seg.len() >= 1 && (c.name != c.url.last_seg
        ==> !seq_contains_char(c.name, ':')) && round_trip_ready(v) {
        assert(parse_shaped(v));
        lemma_canonical_round_trip(v);
    }
}

/// **Exactness.** A specifier that gives a version matches no candidate
/// with a different version: version matching is equality, never a range.
pub proof fn lemma_version_exactness(v: PackageIdSpecV, c: PackageIdV)
    ensures
        (v.version matches Some(vt) && vt != c.version) ==> !spec_matches(v, c),
{
}

/// **Disambiguation minimality, distinct versions.** When exactly two
/// candidates match and their versions differ, each version occurs once, so
/// each disambiguation line is the short `name:version` form, never the
/// full location form.
pub proof fn lemma_two_versions_minimal_lines(name: Seq<char>, a: PackageIdV, b: PackageIdV)
    requires
        a.version != b.version,
    ensures
        crate::query::spec_line(name, seq![a, b], a) == name + seq![':'] + a.version,
        crate::query::spec_line(name, seq![a, b], b) == name + seq![':'] + b.version,
{
    let m = seq![a, b];
    let m1 = seq![a];
    let m0 = Seq::<PackageIdV>::empty();
    assert(m.drop_last() =~= m1);
    assert(m1.drop_last() =~= m0);
    assert(crate::query::version_count(m0, a.version) == 0);
    assert(crate::query::version_count(m0, b.version) == 0);
    assert(crate::query::version_count(m1, a.version) == 1);
    assert(crate::query::version_count(m1, b.version) == 0);
    assert(crate::query::version_count(m, a.version) == 1);
    assert(crate::query::version_count(m, b.version) == 1);
}

/// **Disambiguation minimality, shared version.** When exactly two
/// candidates match with the same name and version, the version alone
/// cannot tell them apart, and each disambiguation line is the full
/// canonical specifier, source included.
pub proof fn lemma_shared_version_full_lines(name: Seq<char>, a: PackageIdV, b: PackageIdV)
    requires
        a.version == b.version,
    ensures
        crate::query::spec_line(name, seq![a, b], a) == spec_format(spec_of_id(a)),
        crate::query::spec_line(name, seq![a, b], b) == spec_format(spec_of_id(b)),
{
    let m = seq![a, b];
    let m1 = seq![a];
    let m0 = Seq::<PackageIdV>::empty();
    assert(m.drop_last() =~= m1);
    assert(m1.drop_last() =~= m0);
    assert(crate::query::version_count(m0, a.version) == 0);
    assert(crate::query::version_count(m1, a.version) == 1);
    assert(crate::query::version_count(m, a.version) == 2);
}


/// All candidates in `m` carry the name `name`.
pub open spec fn same_named(name: Seq<char>, m: Seq<PackageIdV>) -> bool {
    forall|i: int| 0 <= i < m.len() ==> (#[trigger] m[i]).name == name
}

/// No two candidates in `m` agree on both version and source.
pub open spec fn distinct_ids(m: Seq<PackageIdV>) -> bool {
    forall|i: int, j: int|
        0 <= i < j < m.len() ==> !((#[trigger] m[i]).version == (#[trigger] m[j]).version
            && m[i].url.text == m[j].url.text)
}

/// A specifier name the bare grammar reads back: valid, with no path
/// separator and no version separator.
pub open spec fn bare_name_ready(name: Seq<char>) -> bool {
    valid_name(name) && !seq_contains_char(name, '/') && !seq_contains_char(name, ':')
}

/// The k-th disambiguation line, parsed and queried against the same
/// matches, selects exactly the k-th match: the short `name:version` line
/// when its version is unique among the matches, the full canonical line
/// otherwise — provided the shared name is a bare-valid one, the matches
/// are pairwise distinct, and (for the full line) the derived specifier is
/// round-trip ready.
pub open spec fn line_reresolves(name: Seq<char>, m: Seq<PackageIdV>, k: int) -> bool {
    let c = m[k];
    &&& (same_named(name, m) && distinct_ids(m) && bare_name_ready(name)
        && crate::query::version_count(m, c.version) == 1 ==> ({
        let ls = PackageIdSpecV { name: name, version: Some(c.version), url: None };
        spec_parse(name + seq![':'] + c.version) == Ok::<PackageIdSpecV, ParseErrKind>(ls)
            && crate::query::spec_filter(ls, m) == seq![c]
    }))
    &&& (same_named(name, m) && distinct_ids(m) && bare_name_ready(name)
        && crate::query::version_count(m, c.version) != 1 && round_trip_ready(spec_of_id(c))
        && c.url.last_seg.len() >= 1 ==> ({
        spec_parse(spec_format(spec_of_id(c))) == Ok::<PackageIdSpecV, ParseErrKind>(spec_of_id(c))
            && crate::query::spec_filter(spec_of_id(c), m) == seq![c]
    }))
}

/// A specifier no candidate matches filters to nothing.
proof fn lemma_filter_none(v: PackageIdSpecV, m: Seq<PackageIdV>)
    requires
        forall|i: int| 0 <= i < m.len() ==> !spec_matches(v, #[trigger] m[i]),
    ensures
        crate::query::spec_filter(v, m) == Seq::<PackageIdV>::empty(),
    decreases m.len(),
{
    if m.len() > 0 {
        let t = m.drop_last();
        assert(forall|i: int| 0 <= i < t.len() ==> #[trigger] t[i] == m[i]);
        lemma_filter_none(v, t);
        assert(!spec_matches(v, m.last()));
    }
}

/// A specifier exactly one candidate matches filters to that candidate.
proof fn lemma_filter_unique(v: PackageIdSpecV, m: Seq<PackageIdV>, k: int)
    requires
        0 <= k < m.len(),
        spec_matches(v, m[k]),
        forall|i: int| 0 <= i < m.len() && i != k ==> !spec_matches(v, #[trigger] m[i]),
    ensures
        crate::query::spec_filter(v, m) == seq![m[k]],
    decreases m.len(),
{
    let t = m.drop_last();
    assert(forall|i: int| 0 <= i < t.len() ==> #[trigger] t[i] == m[i]);
    if k == m.len() - 1 {
        lemma_filter_none(v, t);
        assert(crate::query::spec_filter(v, m) =~= seq![m[k]]);
    } else {
        assert(!spec_matches(v, m.last()));
        lemma_filter_unique(v, t, k);
    }
}

/// A version some candidate carries is counted at least once.
proof fn lemma_version_count_pos(m: Seq<PackageIdV>, vt: Seq<char>, i: int)
    requires
        0 <= i < m.len(),
        m[i].version == vt,
    ensures
        crate::query::version_count(m, vt) >= 1,
    decreases m.len(),
{
    if i < m.len() - 1 {
        let t = m.drop_last();
        assert(t[i] == m[i]);
        lemma_version_count_pos(t, vt, i);
    }
}

/// A version two candidates carry is counted at least twice.
proof fn lemma_version_count_two(m: Seq<PackageIdV>, vt: Seq<char>, i: int, j: int)
    requires
        0 <= i < j < m.len(),
        m[i].version == vt,
        m[j].version == vt,
    ensures
        crate::query::version_count(m, vt) >= 2,
    decreases m.len(),
{
    let t = m.drop_last();
    if j == m.len() - 1 {
        assert(t[i] == m[i]);
        lemma_version_count_pos(t, vt, i);
    } else {
        assert(t[i] == m[i] && t[j] == m[j]);
        lemma_version_count_two(t, vt, i, j);
    }
}

/// **Disambiguation re-resolution.** Each suggested line re-resolves to
/// exactly its own candidate among the same matches; see
/// `line_reresolves` for the statement and its side conditions.
pub proof fn lemma_line_reresolves(name: Seq<char>, m: Seq<PackageIdV>, k: int)
    requires
        0 <= k < m.len(),
        version_text_canon(m[k].version),
        src_wf(m[k].url),
    ensures
        line_reresolves(name, m, k),
{
    let c = m[k];
    let vt = c.version;
    if same_named(name, m) && distinct_ids(m) && bare_name_ready(name) {
        if crate::query::version_count(m, vt) == 1 {
            let ls = PackageIdSpecV { name: name, version: Some(vt), url: None };
            assert(parse_shaped(ls));
            lemma_bare_round_trip(ls);
            assert(spec_format(ls) == name + seq![':'] + vt);
            assert(spec_matches(ls, c));
            assert forall|i: int| 0 <= i < m.len() && i != k implies !spec_matches(
                ls,
                #[trigger] m[i],
            ) by {
                if m[i].version == vt {
                    if i < k {
                        lemma_version_count_two(m, vt, i, k);
                    } else {
                        lemma_version_count_two(m, vt, k, i);
                    }
                }
            }
            lemma_filter_unique(ls, m, k);
        } else if round_trip_ready(spec_of_id(c)) && c.url.last_seg.len() >= 1 {
            let fs = spec_of_id(c);
            assert(parse_shaped(fs));
            lemma_canonical_round_trip(fs);
            assert(spec_matches(fs, c));
            assert forall|i: int| 0 <= i < m.len() && i != k implies !spec_matches(
                fs,
                #[trigger] m[i],
            ) by {
                if i < k {
                    assert(!(m[i].version == m[k].version && m[i].url.text == m[k].url.text));
                } else {
                    assert(!(m[k].version == m[i].version && m[k].url.text == m[i].url.text));
                }
            }
            lemma_filter_unique(fs, m, k);
        }
    }
}

} // verus!
