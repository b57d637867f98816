use pkgid::{PackageId, PackageIdSpec, SourceUrl, Version};

fn ok(spec: &str, expected: PackageIdSpec) {
    let parsed = PackageIdSpec::parse(spec).unwrap();
    assert!(parsed == expected);
    assert_eq!(parsed.to_string(), spec);
}

#[test]
fn good_parsing() {
    ok(
        "http://crates.io/foo#1.2.3",
        PackageIdSpec::new(
            "foo",
            Some(Version::parse("1.2.3").unwrap()),
            Some(SourceUrl::parse("http://crates.io/foo").unwrap()),
        ),
    );
    ok(
        "http://crates.io/foo#bar:1.2.3",
        PackageIdSpec::new(
            "bar",
            Some(Version::parse("1.2.3").unwrap()),
            Some(SourceUrl::parse("http://crates.io/foo").unwrap()),
        ),
    );
    ok(
        "crates.io/foo",
        PackageIdSpec::new(
            "foo",
            None,
            Some(SourceUrl::parse("cargo://crates.io/foo").unwrap()),
        ),
    );
    ok(
        "crates.io/foo#1.2.3",
        PackageIdSpec::new(
            "foo",
            Some(Version::parse("1.2.3").unwrap()),
            Some(SourceUrl::parse("cargo://crates.io/foo").unwrap()),
        ),
    );
    ok(
        "crates.io/foo#bar",
        PackageIdSpec::new(
            "bar",
            None,
            Some(SourceUrl::parse("cargo://crates.io/foo").unwrap()),
        ),
    );
    ok(
        "crates.io/foo#bar:1.2.3",
        PackageIdSpec::new(
            "bar",
            Some(Version::parse("1.2.3").unwrap()),
            Some(SourceUrl::parse("cargo://crates.io/foo").unwrap()),
        ),
    );
    ok("foo", PackageIdSpec::new("foo", None, None));
    ok(
        "foo:1.2.3",
        PackageIdSpec::new("foo", Some(Version::parse("1.2.3").unwrap()), None),
    );
}

#[test]
fn bad_parsing() {
    assert!(PackageIdSpec::parse("baz:").is_err());
    assert!(PackageIdSpec::parse("baz:*").is_err());
    assert!(PackageIdSpec::parse("baz:1.0").is_err());
    assert!(PackageIdSpec::parse("http://baz:1.0").is_err());
    assert!(PackageIdSpec::parse("http://#baz:1.0").is_err());
}

#[test]
fn matching() {
    let url = SourceUrl::parse("http://example.com").unwrap();
    let foo = PackageId::new("foo", "1.2.3", url.clone()).unwrap();
    let bar = PackageId::new("bar", "1.2.3", url).unwrap();

    assert!(PackageIdSpec::parse("foo").unwrap().matches(&foo));
    assert!(!PackageIdSpec::parse("foo").unwrap().matches(&bar));
    assert!(PackageIdSpec::parse("foo:1.2.3").unwrap().matches(&foo));
    assert!(!PackageIdSpec::parse("foo:1.2.2").unwrap().matches(&foo));
}
