use pkgid::model::ParseErrKind;
use pkgid::pkgid_spec::validate_package_name;
use pkgid::{PackageId, PackageIdSpec, QueryError, QueryStrError, SourceUrl, Version};

#[test]
fn parse_bare_name_fields() {
    let spec = PackageIdSpec::parse("foo").unwrap();
    assert_eq!(spec.name(), "foo");
    assert!(spec.version().is_none());
    assert!(spec.url().is_none());
    assert_eq!(spec.to_string(), "foo");
}

#[test]
fn parse_bare_with_version_formats_back() {
    let spec = PackageIdSpec::parse("foo:1.2.3").unwrap();
    assert_eq!(spec.name(), "foo");
    assert_eq!(spec.version().unwrap().as_text(), "1.2.3");
    assert!(spec.url().is_none());
    assert_eq!(spec.to_string(), "foo:1.2.3");
}

#[test]
fn scheme_less_location_gets_synthetic_scheme() {
    let spec = PackageIdSpec::parse("crates.io/foo").unwrap();
    assert_eq!(spec.name(), "foo");
    assert!(spec.version().is_none());
    assert_eq!(spec.url().unwrap().as_text(), "cargo://crates.io/foo");
    assert_eq!(spec.to_string(), "crates.io/foo");
}

#[test]
fn locations_are_normalized() {
    // the URL parser lower-cases scheme and host; the stored source is the
    // normalized serialization, not the raw input
    let spec = PackageIdSpec::parse("HTTP://Crates.IO/foo#1.2.3").unwrap();
    assert_eq!(spec.url().unwrap().as_text(), "http://crates.io/foo");
    assert_eq!(spec.to_string(), "http://crates.io/foo#1.2.3");
}

#[test]
fn versions_must_be_exact_and_canonical() {
    assert!(Version::parse("1.0").is_none());
    assert!(Version::parse("*").is_none());
    assert!(Version::parse("").is_none());
    let v = Version::parse("1.2.3-beta.1+build5").unwrap();
    assert_eq!(v.as_text(), "1.2.3-beta.1+build5");
}

#[test]
fn prerelease_and_build_metadata_round_trip() {
    let spec = PackageIdSpec::parse("foo:1.0.0-alpha+001").unwrap();
    assert_eq!(spec.version().unwrap().as_text(), "1.0.0-alpha+001");
    assert_eq!(spec.to_string(), "foo:1.0.0-alpha+001");

    let spec = PackageIdSpec::parse("crates.io/foo#1.0.0-alpha.2").unwrap();
    assert_eq!(spec.to_string(), "crates.io/foo#1.0.0-alpha.2");
}

#[test]
fn parse_error_kinds_and_input() {
    let e = PackageIdSpec::parse("http://host/foo?x=1").unwrap_err();
    assert_eq!(e.kind, ParseErrKind::QueryStringNotAllowed);
    assert_eq!(e.input, "http://host/foo?x=1");

    let e = PackageIdSpec::parse("http://host").unwrap_err();
    assert_eq!(e.kind, ParseErrKind::MissingPath);

    let e = PackageIdSpec::parse("b@d").unwrap_err();
    assert_eq!(e.kind, ParseErrKind::InvalidName);

    let e = PackageIdSpec::parse("foo:abc").unwrap_err();
    assert_eq!(e.kind, ParseErrKind::InvalidVersion);

    let e = PackageIdSpec::parse("crates.io/foo#2beta").unwrap_err();
    assert_eq!(e.kind, ParseErrKind::InvalidVersion);

    let e = PackageIdSpec::parse("http://baz:1.0").unwrap_err();
    assert_eq!(e.kind, ParseErrKind::InvalidUrl);

    // a fragment that gives a version but an empty override name
    let e = PackageIdSpec::parse("crates.io/foo#:1.2.3").unwrap_err();
    assert_eq!(e.kind, ParseErrKind::InvalidName);

    // a location that cannot carry path segments
    let e = PackageIdSpec::parse("mailto:a/b").unwrap_err();
    assert_eq!(e.kind, ParseErrKind::MissingPath);
}

#[test]
fn validate_package_name_rules() {
    assert!(validate_package_name("foo"));
    assert!(validate_package_name("foo-bar_2"));
    assert!(!validate_package_name(""));
    assert!(!validate_package_name("a b"));
    assert!(!validate_package_name("a/b"));
}

#[test]
fn query_unique_match() {
    let url = SourceUrl::parse("http://example.com/registry").unwrap();
    let foo = PackageId::new("foo", "1.2.3", url.clone()).unwrap();
    let bar = PackageId::new("bar", "1.2.3", url).unwrap();
    let candidates = vec![foo, bar];

    let spec = PackageIdSpec::parse("foo").unwrap();
    let found = spec.query(&candidates).unwrap();
    assert_eq!(found.name(), "foo");
    assert_eq!(found.version().as_text(), "1.2.3");
}

#[test]
fn query_no_match_carries_canonical_text() {
    let url = SourceUrl::parse("http://example.com/registry").unwrap();
    let foo = PackageId::new("foo", "1.2.3", url.clone()).unwrap();
    let bar = PackageId::new("bar", "1.2.3", url).unwrap();
    let candidates = vec![foo, bar];

    let spec = PackageIdSpec::parse("foo:1.2.2").unwrap();
    match spec.query(&candidates).unwrap_err() {
        QueryError::NoMatch(text) => assert_eq!(text, "foo:1.2.2"),
        QueryError::Ambiguous(_) => panic!("expected no match"),
    }
}

#[test]
fn ambiguous_versions_get_minimal_lines() {
    let url = SourceUrl::parse("http://example.com/registry").unwrap();
    let one = PackageId::new("foo", "1.0.0", url.clone()).unwrap();
    let two = PackageId::new("foo", "1.1.0", url).unwrap();
    let candidates = vec![one, two];

    let spec = PackageIdSpec::parse("foo").unwrap();
    match spec.query(&candidates).unwrap_err() {
        QueryError::Ambiguous(rep) => {
            assert_eq!(rep.name, "foo");
            assert_eq!(rep.spec_text, "foo");
            assert_eq!(rep.lines, vec!["foo:1.0.0", "foo:1.1.0"]);
        },
        QueryError::NoMatch(_) => panic!("expected ambiguity"),
    }
}

#[test]
fn ambiguous_sources_get_full_lines() {
    let one = SourceUrl::parse("http://one.example/foo").unwrap();
    let two = SourceUrl::parse("http://two.example/foo").unwrap();
    let a = PackageId::new("foo", "1.2.3", one).unwrap();
    let b = PackageId::new("foo", "1.2.3", two).unwrap();
    let candidates = vec![a, b];

    let spec = PackageIdSpec::parse("foo").unwrap();
    match spec.query(&candidates).unwrap_err() {
        QueryError::Ambiguous(rep) => {
            assert_eq!(
                rep.lines,
                vec![
                    "http://one.example/foo#1.2.3",
                    "http://two.example/foo#1.2.3"
                ]
            );
        },
        QueryError::NoMatch(_) => panic!("expected ambiguity"),
    }
}

#[test]
fn short_lines_reresolve_to_their_candidate() {
    let url = SourceUrl::parse("http://example.com/registry").unwrap();
    let one = PackageId::new("foo", "1.0.0", url.clone()).unwrap();
    let two = PackageId::new("foo", "1.1.0", url).unwrap();
    let candidates = vec![one, two];

    let spec = PackageIdSpec::parse("foo").unwrap();
    match spec.query(&candidates).unwrap_err() {
        QueryError::Ambiguous(rep) => {
            for (k, line) in rep.lines.iter().enumerate() {
                let again = PackageIdSpec::parse(line).unwrap();
                let picked = again.query(&candidates).unwrap();
                assert_eq!(picked.name(), candidates[k].name());
                assert_eq!(
                    picked.version().as_text(),
                    candidates[k].version().as_text()
                );
            }
        },
        QueryError::NoMatch(_) => panic!("expected ambiguity"),
    }
}

#[test]
fn full_lines_reresolve_to_their_candidate() {
    let one = SourceUrl::parse("http://one.example/foo").unwrap();
    let two = SourceUrl::parse("http://two.example/foo").unwrap();
    let a = PackageId::new("foo", "1.2.3", one).unwrap();
    let b = PackageId::new("foo", "1.2.3", two).unwrap();
    let candidates = vec![a, b];

    let spec = PackageIdSpec::parse("foo").unwrap();
    match spec.query(&candidates).unwrap_err() {
        QueryError::Ambiguous(rep) => {
            for (k, line) in rep.lines.iter().enumerate() {
                let again = PackageIdSpec::parse(line).unwrap();
                let picked = again.query(&candidates).unwrap();
                assert_eq!(
                    picked.source_url().as_text(),
                    candidates[k].source_url().as_text()
                );
            }
        },
        QueryError::NoMatch(_) => panic!("expected ambiguity"),
    }
}

#[test]
fn specifier_clones_equal() {
    let spec = PackageIdSpec::parse("http://crates.io/foo#bar:1.2.3").unwrap();
    let copy = spec.clone();
    assert!(copy == spec);
}

#[test]
fn ambiguity_message_text() {
    let url = SourceUrl::parse("http://example.com/registry").unwrap();
    let one = PackageId::new("foo", "1.0.0", url.clone()).unwrap();
    let two = PackageId::new("foo", "1.1.0", url).unwrap();
    let candidates = vec![one, two];

    let err = PackageIdSpec::parse("foo").unwrap().query(&candidates).unwrap_err();
    assert_eq!(
        err.message(),
        "There are multiple `foo` packages in your project, and the specification `foo` is \
         ambiguous.\nPlease re-run this command with `-p <spec>` where `<spec>` is one of the \
         following:\n  foo:1.0.0\n  foo:1.1.0"
    );
}

#[test]
fn no_match_message_text() {
    let spec = PackageIdSpec::parse("foo:1.2.2").unwrap();
    let err = spec.query(&Vec::new()).unwrap_err();
    assert_eq!(
        err.message(),
        "package id specification `foo:1.2.2` matched no packages"
    );
}

#[test]
fn derived_spec_matches_and_round_trips() {
    let url = SourceUrl::parse("http://example.com/foo").unwrap();
    let id = PackageId::new("foo", "1.2.3", url).unwrap();
    let spec = PackageIdSpec::from_package_id(&id);
    assert!(spec.matches(&id));
    let text = spec.to_string();
    assert_eq!(text, "http://example.com/foo#1.2.3");
    let reparsed = PackageIdSpec::parse(&text).unwrap();
    assert!(reparsed == spec);
}

#[test]
fn set_url_pins_source() {
    let mut spec = PackageIdSpec::parse("foo").unwrap();
    spec.set_url(SourceUrl::parse("http://example.com/foo").unwrap());
    assert_eq!(spec.to_string(), "http://example.com/foo");
}

#[test]
fn query_str_parses_and_queries() {
    let url = SourceUrl::parse("http://example.com/registry").unwrap();
    let foo = PackageId::new("foo", "1.2.3", url).unwrap();
    let candidates = vec![foo];

    let found = PackageIdSpec::query_str("foo:1.2.3", &candidates).unwrap();
    assert_eq!(found.name(), "foo");

    match PackageIdSpec::query_str("baz:", &candidates).unwrap_err() {
        QueryStrError::Parse(e) => assert_eq!(e.kind, ParseErrKind::InvalidVersion),
        QueryStrError::Query(_) => panic!("expected a parse failure"),
    }
}
