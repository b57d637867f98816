//! The query resolver: find the unique candidate a specifier selects, or
//! explain the ambiguity with the smallest re-queryable specifiers.
use vstd::prelude::*;

verus! {

use crate::model::{spec_format, spec_matches, spec_of_id, PackageIdSpecV, PackageIdV};
use crate::pkgid_spec::{PackageId, PackageIdSpec, ParseError};
use crate::version::Version;
use vstd::string::StringExecFns;

/// The views of the candidates in `ids`.
pub open spec fn views_of(ids: Seq<PackageId>) -> Seq<PackageIdV> {
    ids.map_values(|p: PackageId| p@)
}

/// The candidates among `ids` that match `v`, in the caller's order.
pub open spec fn spec_filter(v: PackageIdSpecV, ids: Seq<PackageIdV>) -> Seq<PackageIdV>
    decreases ids.len(),
{
    if ids.len() == 0 {
        Seq::empty()
    } else {
        let rest = spec_filter(v, ids.drop_last());
        if spec_matches(v, ids.last()) {
            rest.push(ids.last())
        } else {
            rest
        }
    }
}

/// How many of `ids` carry exactly the version `vt`.
pub open spec fn version_count(ids: Seq<PackageIdV>, vt: Seq<char>) -> nat
    decreases ids.len(),
{
    if ids.len() == 0 {
        0
    } else {
        version_count(ids.drop_last(), vt) + (if ids.last().version == vt {
            1nat
        } else {
            0nat
        })
    }
}

/// The disambiguation line for the match `c` among the matches `m`: when no
/// other match shares its version, `name:version` alone re-resolves
/// uniquely and is the whole line; otherwise the line is the full canonical
/// specifier for `c`, source included.
pub open spec fn spec_line(name: Seq<char>, m: Seq<PackageIdV>, c: PackageIdV) -> Seq<char> {
    if version_count(m, c.version) == 1 {
        name + seq![':'] + c.version
    } else {
        spec_format(spec_of_id(c))
    }
}

/// An ambiguity explanation: the specifier's name and canonical text, and
/// one minimal disambiguating specifier line per match, in the caller's
/// candidate order.
#[derive(Debug)]
pub struct AmbiguityReport {
    pub name: String,
    pub spec_text: String,
    pub lines: Vec<String>,
}

/// Why a query failed.
#[derive(Debug)]
pub enum QueryError {
    /// No candidate matched; carries the canonical specifier text.
    NoMatch(String),
    /// Two or more candidates matched.
    Ambiguous(AmbiguityReport),
}

/// Why a combined parse-and-query call failed.
#[derive(Debug)]
pub enum QueryStrError {
    /// The specifier string did not parse.
    Parse(ParseError),
    /// The parsed specifier did not select a unique candidate.
    Query(QueryError),
}

/// The fixed header of an ambiguity explanation.
pub open spec fn spec_ambiguous_header(name: Seq<char>, text: Seq<char>) -> Seq<char> {
    "There are multiple `"@ + name + "` packages in your project, and the specification `"@ + text
        + "` is ambiguous.\nPlease re-run this command with `-p <spec>` where `<spec>` is one of the following:"@
}

/// The disambiguation lines, each on a line of its own, indented.
pub open spec fn spec_lines_block(lines: Seq<Seq<char>>) -> Seq<char>
    decreases lines.len(),
{
    if lines.len() == 0 {
        Seq::empty()
    } else {
        spec_lines_block(lines.drop_last()) + "\n  "@ + lines.last()
    }
}

/// What `message` renders for a query failure.
pub open spec fn spec_message(e: QueryError) -> Seq<char> {
    match e {
        QueryError::NoMatch(t) => "package id specification `"@ + t@
            + "` matched no packages"@,
        QueryError::Ambiguous(rep) => spec_ambiguous_header(rep.name@, rep.spec_text@)
            + spec_lines_block(rep.lines@.map_values(|l: String| l@)),
    }
}

impl QueryError {
    /// The human-readable explanation of this failure.
    pub fn message(&self) -> (r: String)
        ensures
            r@ == spec_message(*self),
    {
        match self {
            QueryError::NoMatch(t) => {
                let mut m = String::from_str("package id specification `");
                m.append(t.as_str());
                m.append("` matched no packages");
                m
            },
            QueryError::Ambiguous(rep) => {
                let mut m = String::from_str("There are multiple `");
                m.append(rep.name.as_str());
                m.append("` packages in your project, and the specification `");
                m.append(rep.spec_text.as_str());
                m.append(
                    "` is ambiguous.\nPlease re-run this command with `-p <spec>` where `<spec>` is one of the following:",
                );
                let ghost header = m@;
                let n: usize = rep.lines.len();
                let mut k: usize = 0;
                proof {
                    let vs = rep.lines@.map_values(|l: String| l@);
                    assert(vs.take(0) =~= Seq::<Seq<char>>::empty());
                    assert(header + spec_lines_block(vs.take(0)) =~= header);
                }
                while k < n
                    invariant
                        n == rep.lines@.len(),
                        k <= n,
                        m@ == header + spec_lines_block(
                            rep.lines@.map_values(|l: String| l@).take(k as int),
                        ),
                    decreases n - k,
                {
                    proof {
                        let vs = rep.lines@.map_values(|l: String| l@);
                        assert(vs.take(k + 1 as int).drop_last() =~= vs.take(k as int));
                        assert(vs.take(k + 1 as int).last() == vs[k as int]);
                    }
                    m.append("\n  ");
                    m.append(rep.lines[k].as_str());
                    k += 1;
                }
                proof {
                    let vs = rep.lines@.map_values(|l: String| l@);
                    assert(vs.take(n as int) =~= vs);
                }
                m
            },
        }
    }
}

/// Counts the candidates in `ms` that carry exactly the version `vt`.
fn count_version(ms: &Vec<PackageId>, vt: &Version) -> (r: usize)
    ensures
        r == version_count(views_of(ms@), vt@),
{
    let n: usize = ms.len();
    let mut k: usize = 0;
    let mut r: usize = 0;
    while k < n
        invariant
            n == ms@.len(),
            k <= n,
            r <= k,
            r == version_count(views_of(ms@).take(k as int), vt@),
        decreases n - k,
    {
        proof {
            let vs = views_of(ms@);
            assert(vs.take(k + 1 as int).drop_last() =~= vs.take(k as int));
            assert(vs.take(k + 1 as int).last() == vs[k as int]);
        }
        if *ms[k].version() == *vt {
            r = r + 1;
        }
        k += 1;
    }
    proof {
        assert(views_of(ms@).take(n as int) =~= views_of(ms@));
    }
    r
}

/// Builds one minimal disambiguation line per match, in order.
fn build_lines(v: &PackageIdSpec, ms: &Vec<PackageId>) -> (r: Vec<String>)
    ensures
        r@.len() == ms@.len(),
        forall|k: int|
            0 <= k < ms@.len() ==> #[trigger] r@[k]@ == spec_line(v@.name, views_of(ms@), views_of(ms@)[k]),
{
    let n: usize = ms.len();
    let mut lines: Vec<String> = Vec::new();
    let mut k: usize = 0;
    while k < n
        invariant
            n == ms@.len(),
            k <= n,
            lines@.len() == k,
            forall|t: int|
                0 <= t < k ==> #[trigger] lines@[t]@ == spec_line(
                    v@.name,
                    views_of(ms@),
                    views_of(ms@)[t],
                ),
        decreases n - k,
    {
        let c = &ms[k];
        let cnt = count_version(ms, c.version());
        let line = if cnt == 1 {
            let mut t = v.name().to_owned();
            t.append(":");
            t.append(c.version().as_text());
            proof {
                reveal_strlit(":");
                assert(":"@ =~= seq![':']);
            }
            t
        } else {
            PackageIdSpec::from_package_id(c).to_string()
        };
        lines.push(line);
        k += 1;
    }
    lines
}

impl PackageIdSpec {
    /// Checks the candidates for the single one this specifier selects.
    /// Exactly one match is returned; none is `NoMatch` with the canonical
    /// specifier text; two or more are `Ambiguous`, with one minimal
    /// disambiguating line per match, in the caller's order.
    pub fn query(&self, i: &Vec<PackageId>) -> (r: Result<PackageId, QueryError>)
        ensures
            ({
                let m = spec_filter(self@, views_of(i@));
                &&& (m.len() == 0 ==> (r matches Err(QueryError::NoMatch(t)) && t@
                    == spec_format(self@)))
                &&& (m.len() == 1 ==> (r matches Ok(p) && p@ == m[0]))
                &&& (m.len() >= 2 ==> (r matches Err(QueryError::Ambiguous(rep)) && rep.name@
                    == self@.name && rep.spec_text@ == spec_format(self@) && rep.lines@.len()
                    == m.len() && (forall|k: int|
                    0 <= k < m.len() ==> #[trigger] rep.lines@[k]@ == spec_line(
                        self@.name,
                        m,
                        m[k],
                    ))))
                &&& (m.len() >= 2 ==> (forall|k: int|
                    0 <= k < m.len() ==> #[trigger] crate::laws::line_reresolves(
                        self@.name,
                        m,
                        k,
                    )))
            }),
    {
        let n: usize = i.len();
        let mut ms: Vec<PackageId> = Vec::new();
        let mut k: usize = 0;
        while k < n
            invariant
                n == i@.len(),
                k <= n,
                views_of(ms@) == spec_filter(self@, views_of(i@).take(k as int)),
                forall|t: int|
                    0 <= t < ms@.len() ==> crate::foreign::version_text_canon(
                        (#[trigger] views_of(ms@)[t]).version,
                    ) && crate::source::src_wf(views_of(ms@)[t].url),
            decreases n - k,
        {
            proof {
                let vs = views_of(i@);
                assert(vs.take(k + 1 as int).drop_last() =~= vs.take(k as int));
                assert(vs.take(k + 1 as int).last() == vs[k as int]);
            }
            let p = &i[k];
            if self.matches(p) {
                p.wf_facts();
                ms.push(p.clone());
            }
            proof {
                assert(views_of(ms@) =~= spec_filter(self@, views_of(i@).take(k + 1 as int)));
            }
            k += 1;
        }
        proof {
            assert(views_of(i@).take(n as int) =~= views_of(i@));
        }
        if ms.len() == 0 {
            return Err(QueryError::NoMatch(self.to_string()));
        }
        if ms.len() == 1 {
            let p = ms[0].clone();
            proof {
                assert(p@ == views_of(ms@)[0]);
            }
            return Ok(p);
        }
        proof {
            let m = views_of(ms@);
            assert forall|k: int| 0 <= k < m.len() implies #[trigger] crate::laws::line_reresolves(
                self@.name,
                m,
                k,
            ) by {
                crate::laws::lemma_line_reresolves(self@.name, m, k);
            }
        }
        let lines = build_lines(self, &ms);
        Err(
            QueryError::Ambiguous(
                AmbiguityReport {
                    name: self.name().to_owned(),
                    spec_text: self.to_string(),
                    lines,
                },
            ),
        )
    }

    /// Parses `s` and checks the candidates for the single one it selects;
    /// roughly equivalent to `PackageIdSpec::parse(s)?.query(i)`.
    pub fn query_str(s: &str, i: &Vec<PackageId>) -> (r: Result<PackageId, QueryStrError>)
        ensures
            (r matches Err(QueryStrError::Parse(e)) ==> (crate::model::spec_parse(s@) is Err
                && crate::model::spec_parse(s@)->Err_0 == e.kind && e.input@ == s@)),
            crate::model::spec_parse(s@) is Err ==> r matches Err(QueryStrError::Parse(e)),
            (crate::model::spec_parse(s@) matches Ok(v) ==> ({
                let m = spec_filter(v, views_of(i@));
                &&& (m.len() == 0 ==> (r matches Err(
                    QueryStrError::Query(QueryError::NoMatch(t)),
                ) && t@ == spec_format(v)))
                &&& (m.len() == 1 ==> (r matches Ok(p) && p@ == m[0]))
                &&& (m.len() >= 2 ==> (r matches Err(
                    QueryStrError::Query(QueryError::Ambiguous(rep)),
                ) && rep.name@ == v.name && rep.spec_text@ == spec_format(v) && rep.lines@.len()
                    == m.len() && (forall|k: int|
                    0 <= k < m.len() ==> #[trigger] rep.lines@[k]@ == spec_line(v.name, m, m[k]))))
            })),
    {
        match PackageIdSpec::parse(s) {
            Ok(v) => match v.query(i) {
                Ok(p) => Ok(p),
                Err(e) => Err(QueryStrError::Query(e)),
            },
            Err(e) => Err(QueryStrError::Parse(e)),
        }
    }
}

} // verus!
