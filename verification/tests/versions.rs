use qt_ritual_build::resolver::detect_closest_version;
use qt_ritual_build::resolver::resolve;
use qt_ritual_build::version::{Version, VersionError};

fn v(major: u64, minor: u64, patch: u64) -> Version {
    Version { major, minor, patch }
}

#[test]
fn versions() {
    assert_eq!(
        detect_closest_version(&["5.11.0", "5.12.2"], "5.13.1").unwrap(),
        Some("5.12.2".to_string())
    );
    assert_eq!(
        detect_closest_version(&["5.11.0", "5.9.7", "5.12.2"], "5.9.1").unwrap(),
        Some("5.9.7".to_string())
    );
    assert_eq!(
        detect_closest_version(&["5.11.0", "5.10.7", "5.12.2"], "5.9.1").unwrap(),
        None
    );
    assert_eq!(
        detect_closest_version(&["5.11.0", "5.9.7", "5.12.2"], "5.10.1").unwrap(),
        Some("5.9.7".to_string())
    );
    assert_eq!(
        detect_closest_version(&["5.11.0", "5.9.7", "5.12.2"], "5.11.2").unwrap(),
        Some("5.11.0".to_string())
    );
    assert_eq!(
        detect_closest_version(&["5.11.2", "5.9.7", "5.12.2"], "5.11.0").unwrap(),
        Some("5.11.2".to_string())
    );
}

#[test]
fn parse_plain_version() {
    assert_eq!(Version::parse("5.11.0"), Ok(v(5, 11, 0)));
    assert_eq!(Version::parse("0.0.0"), Ok(v(0, 0, 0)));
    assert_eq!(Version::parse("12.345.6789"), Ok(v(12, 345, 6789)));
}

#[test]
fn parse_ignores_trailing_metadata() {
    assert_eq!(Version::parse("1.2.3-alpha.1"), Ok(v(1, 2, 3)));
    assert_eq!(Version::parse("1.2.3+build.7"), Ok(v(1, 2, 3)));
}

#[test]
fn parse_rejects_malformed() {
    assert_eq!(Version::parse(""), Err(VersionError::InvalidVersion));
    assert_eq!(Version::parse("5.11"), Err(VersionError::InvalidVersion));
    assert_eq!(Version::parse("abc"), Err(VersionError::InvalidVersion));
    assert_eq!(Version::parse("5.11.x"), Err(VersionError::InvalidVersion));
}

#[test]
fn version_text_format() {
    assert_eq!(v(5, 12, 2).text(), "5.12.2");
    assert_eq!(v(0, 0, 0).text(), "0.0.0");
    assert_eq!(v(10, 200, 3000).text(), "10.200.3000");
    assert_eq!(v(1234567890, 1, 0).text(), "1234567890.1.0");
    assert_eq!(
        v(u64::MAX, 0, 9).text(),
        "18446744073709551615.0.9"
    );
}

#[test]
fn parse_then_text_round_trips() {
    let parsed = Version::parse("5.9.7").unwrap();
    assert_eq!(parsed.text(), "5.9.7");
}

#[test]
fn resolve_prefers_exact_match() {
    let known = vec![v(5, 9, 7), v(5, 11, 0), v(5, 12, 2)];
    assert_eq!(resolve(&known, v(5, 11, 0)), Some(v(5, 11, 0)));
    assert_eq!(resolve(&known, v(5, 9, 7)), Some(v(5, 9, 7)));
    assert_eq!(resolve(&known, v(5, 12, 2)), Some(v(5, 12, 2)));
}

#[test]
fn resolve_same_minor_prefers_closest_older_patch() {
    let known = vec![v(5, 11, 0), v(5, 11, 1), v(5, 12, 2)];
    assert_eq!(resolve(&known, v(5, 11, 3)), Some(v(5, 11, 1)));
}

#[test]
fn resolve_same_minor_falls_back_to_lowest_patch() {
    let known = vec![v(5, 11, 2), v(5, 11, 4), v(5, 12, 2)];
    assert_eq!(resolve(&known, v(5, 11, 0)), Some(v(5, 11, 2)));
}

#[test]
fn resolve_cross_line_takes_closest_older() {
    let known = vec![v(5, 9, 7), v(5, 11, 0), v(5, 12, 2)];
    assert_eq!(resolve(&known, v(5, 10, 1)), Some(v(5, 9, 7)));
}

#[test]
fn resolve_refuses_version_older_than_all() {
    let known = vec![v(5, 10, 7), v(5, 11, 0), v(5, 12, 2)];
    assert_eq!(resolve(&known, v(5, 9, 1)), None);
    assert_eq!(resolve(&Vec::new(), v(5, 9, 1)), None);
}

#[test]
fn resolve_tightens_toward_added_version() {
    let known = vec![v(5, 11, 0), v(5, 9, 7)];
    assert_eq!(resolve(&known, v(5, 13, 1)), Some(v(5, 11, 0)));
    let wider = vec![v(5, 11, 0), v(5, 9, 7), v(5, 12, 2)];
    assert_eq!(resolve(&wider, v(5, 13, 1)), Some(v(5, 12, 2)));
}

#[test]
fn resolve_ignores_registry_order() {
    let current = v(5, 10, 1);
    let one = vec![v(5, 11, 0), v(5, 9, 7), v(5, 12, 2)];
    let two = vec![v(5, 12, 2), v(5, 9, 7), v(5, 11, 0)];
    assert_eq!(resolve(&one, current), resolve(&two, current));
    assert_eq!(resolve(&one, current), resolve(&one, current));
}

#[test]
fn detect_closest_version_rejects_bad_input() {
    assert_eq!(
        detect_closest_version(&["5.11.0", "not-a-version"], "5.13.1"),
        Err(VersionError::InvalidVersion)
    );
    assert_eq!(
        detect_closest_version(&["5.11.0"], "5.13"),
        Err(VersionError::InvalidVersion)
    );
}
