use sps2::version::{ConstraintOp, Version, VersionConstraint, VersionError, VersionSpec};

fn v(s: &str) -> Version {
    Version::parse(s).unwrap()
}

#[test]
fn version_spec_parse_scenario() {
    let spec = VersionSpec::parse(">=1.2,<2.0,!=1.5.0").unwrap();
    assert_eq!(spec.constraints().len(), 3);
    for ok in ["1.2.0", "1.4.9", "1.9.9"] {
        assert!(spec.matches(&v(ok)), "{ok} should match");
    }
    for bad in ["1.1.9", "1.5.0", "2.0.0"] {
        assert!(!spec.matches(&v(bad)), "{bad} should not match");
    }
}

#[test]
fn compatible_release_scenario() {
    let spec = VersionSpec::parse("~=1.2.3").unwrap();
    assert!(spec.matches(&v("1.2.3")));
    assert!(spec.matches(&v("1.2.99")));
    assert!(!spec.matches(&v("1.3.0")));
    assert!(!spec.matches(&v("1.2.2")));
}

#[test]
fn empty_and_star_match_everything() {
    for text in ["", "   ", "*", " * "] {
        let spec = VersionSpec::parse(text).unwrap();
        assert!(spec.is_any());
        assert!(spec.matches(&v("0.0.1")));
        assert!(spec.matches(&v("99.0.0-rc.1")));
        assert_eq!(spec.to_string(), "*");
    }
}

#[test]
fn every_operator_reads_and_matches() {
    let cases = [
        ("==1.2.3", ConstraintOp::Exact, "1.2.3", true),
        ("==1.2.3", ConstraintOp::Exact, "1.2.4", false),
        (">=1.2.0", ConstraintOp::GreaterEqual, "1.2.0", true),
        (">=1.2.0", ConstraintOp::GreaterEqual, "1.1.9", false),
        ("<=2.0.0", ConstraintOp::LessEqual, "2.0.0", true),
        ("<=2.0.0", ConstraintOp::LessEqual, "2.0.1", false),
        (">1.0.0", ConstraintOp::Greater, "1.0.1", true),
        (">1.0.0", ConstraintOp::Greater, "1.0.0", false),
        ("<2.0.0", ConstraintOp::Less, "1.9.9", true),
        ("<2.0.0", ConstraintOp::Less, "2.0.0", false),
        ("~=1.2.0", ConstraintOp::Compatible, "1.2.7", true),
        ("~=1.2.0", ConstraintOp::Compatible, "1.3.0", false),
        ("!=1.5.0", ConstraintOp::NotEqual, "1.5.1", true),
        ("!=1.5.0", ConstraintOp::NotEqual, "1.5.0", false),
    ];
    for (text, op, version, expected) in cases {
        let c = VersionConstraint::parse(text).unwrap();
        assert_eq!(c.op(), op, "{text}");
        assert_eq!(c.matches(&v(version)), expected, "{text} on {version}");
    }
}

#[test]
fn longest_operator_wins() {
    let c = VersionConstraint::parse(">=1.0.0").unwrap();
    assert_eq!(c.op(), ConstraintOp::GreaterEqual);
    assert_eq!(c.version().to_string(), "1.0.0");
    let c = VersionConstraint::parse("<=1.0.0").unwrap();
    assert_eq!(c.op(), ConstraintOp::LessEqual);
}

#[test]
fn white_space_is_dropped() {
    let spec = VersionSpec::parse("  >= 1.2.0 ,\t< 2.0.0  ").unwrap();
    assert_eq!(spec.to_string(), ">=1.2.0,<2.0.0");
}

#[test]
fn missing_numbers_count_as_zero() {
    assert_eq!(v("1").to_string(), "1.0.0");
    assert_eq!(v("1.2").to_string(), "1.2.0");
    assert_eq!(v("1.2-rc.1").to_string(), "1.2.0-rc.1");
    assert_eq!(v("3+build.7").to_string(), "3.0.0+build.7");
    assert_eq!(v("1.2.3").to_string(), "1.2.3");
}

#[test]
fn unknown_operator_is_invalid_constraint() {
    match VersionSpec::parse("1.2.3") {
        Err(VersionError::InvalidConstraint { input }) => assert_eq!(input, "1.2.3"),
        other => panic!("unexpected: {other:?}"),
    }
    match VersionSpec::parse(">=1.0.0, ^2.0.0") {
        Err(VersionError::InvalidConstraint { input }) => assert_eq!(input, "^2.0.0"),
        other => panic!("unexpected: {other:?}"),
    }
    match VersionSpec::parse(">=1.0.0,") {
        Err(VersionError::InvalidConstraint { input }) => assert_eq!(input, ""),
        other => panic!("unexpected: {other:?}"),
    }
}

#[test]
fn bad_version_is_parse_error() {
    match VersionSpec::parse(">=1.x.0") {
        Err(VersionError::ParseError { message }) => assert!(!message.is_empty()),
        other => panic!("unexpected: {other:?}"),
    }
    match VersionConstraint::parse("==01.2.3") {
        Err(VersionError::ParseError { message }) => assert!(message.contains("leading zero")),
        other => panic!("unexpected: {other:?}"),
    }
    assert!(Version::parse("1.2.3.4").is_err());
    assert!(Version::parse("").is_err());
}

#[test]
fn first_failing_clause_decides() {
    match VersionSpec::parse("oops,>=1.x") {
        Err(VersionError::InvalidConstraint { input }) => assert_eq!(input, "oops"),
        other => panic!("unexpected: {other:?}"),
    }
    match VersionSpec::parse(">=1.x,oops") {
        Err(VersionError::ParseError { .. }) => {}
        other => panic!("unexpected: {other:?}"),
    }
}

#[test]
fn display_round_trips() {
    for text in [
        "*",
        "==1.2.3",
        ">=1.2.0,<2.0.0,!=1.5.0",
        "~=1.2.3",
        ">1.0.0-alpha.1",
        "<=2.0.0-rc.1+build.5",
        ">0.0.0,<18446744073709551615.0.0",
    ] {
        let spec = VersionSpec::parse(text).unwrap();
        let shown = spec.to_string();
        assert_eq!(shown, text);
        let again = VersionSpec::parse(&shown).unwrap();
        assert_eq!(again.to_string(), shown);
        assert_eq!(again.constraints().len(), spec.constraints().len());
        for (a, b) in again.constraints().iter().zip(spec.constraints().iter()) {
            assert_eq!(a.op(), b.op());
            assert!(a.version().same(b.version()));
        }
    }
}

#[test]
fn matches_is_the_conjunction_of_its_clauses() {
    let spec = VersionSpec::parse(">=1.0.0,<3.0.0,!=2.0.0").unwrap();
    for text in ["0.9.0", "1.0.0", "2.0.0", "2.5.0", "3.0.0", "3.1.0-rc.1"] {
        let version = v(text);
        let each = spec.constraints().iter().all(|c| c.matches(&version));
        assert_eq!(spec.matches(&version), each, "{text}");
    }
}

#[test]
fn precedence_follows_semver() {
    assert_eq!(v("1.0.0").precedence(&v("1.0.0")), 0);
    assert_eq!(v("1.0.0").precedence(&v("2.0.0")), -1);
    assert_eq!(v("1.10.0").precedence(&v("1.9.0")), 1);
    assert_eq!(v("1.0.0-alpha").precedence(&v("1.0.0")), -1);
    assert_eq!(v("1.0.0-alpha.1").precedence(&v("1.0.0-alpha")), 1);
    assert_eq!(v("1.0.0-2").precedence(&v("1.0.0-10")), -1);
    assert_eq!(v("1.0.0-rc.1").precedence(&v("1.0.0-beta.11")), 1);
}

#[test]
fn prerelease_is_below_its_release() {
    let spec = VersionSpec::parse(">=1.0.0").unwrap();
    assert!(!spec.matches(&v("1.0.0-rc.1")));
    assert!(spec.matches(&v("1.0.1-rc.1")));
}

#[test]
fn exact_compares_every_field() {
    let spec = VersionSpec::exact(v("1.2.3"));
    assert!(spec.matches(&v("1.2.3")));
    assert!(!spec.matches(&v("1.2.3-rc.1")));
    assert!(!spec.matches(&v("1.2.3+build")));
    assert_eq!(spec.to_string(), "==1.2.3");
}

#[test]
fn new_and_getters() {
    let version = Version::new(1, 2, 3);
    assert_eq!(version.major(), 1);
    assert_eq!(version.minor(), 2);
    assert_eq!(version.patch(), 3);
    assert_eq!(version.pre(), "");
    assert_eq!(version.build(), "");
    assert_eq!(version.to_string(), "1.2.3");
    assert!(version.same(&v("1.2.3")));
    let parsed = v("4.5.6-beta.2+exp.sha");
    assert_eq!(parsed.pre(), "beta.2");
    assert_eq!(parsed.build(), "exp.sha");
    assert!(parsed.clone().same(&parsed));
}

#[test]
fn single_holds_one_clause() {
    let spec = VersionSpec::single(VersionConstraint::Less(v("2.0.0")));
    assert!(!spec.is_any());
    assert_eq!(spec.constraints().len(), 1);
    assert_eq!(spec.to_string(), "<2.0.0");
}

#[test]
fn specifications_parse_from_str() {
    let spec: VersionSpec = ">=1.0.0,<2".parse().unwrap();
    assert_eq!(spec.to_string(), ">=1.0.0,<2.0.0");
    assert!("what".parse::<VersionSpec>().is_err());
}
