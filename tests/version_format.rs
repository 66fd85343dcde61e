use codex_native::is_semver;

#[test]
fn plain_versions_are_accepted() {
    assert!(is_semver("1.4.0"));
    assert!(is_semver("0.0.0"));
    assert!(is_semver("10.20.30"));
}

#[test]
fn prerelease_versions_are_accepted() {
    assert!(is_semver("1.2.3-alpha"));
    assert!(is_semver("1.2.3-alpha.1"));
    assert!(is_semver("1.0.0-0.3.7"));
    assert!(is_semver("1.0.0-x-y-z.--"));
    assert!(is_semver("1.0.0-rc.0"));
}

#[test]
fn malformed_cores_are_rejected() {
    assert!(!is_semver(""));
    assert!(!is_semver("1"));
    assert!(!is_semver("1.2"));
    assert!(!is_semver("1.2.3.4"));
    assert!(!is_semver("1..3"));
    assert!(!is_semver("v1.2.3"));
    assert!(!is_semver("1.2.x"));
    assert!(!is_semver("1.2.3 "));
}

#[test]
fn leading_zeros_are_rejected() {
    assert!(!is_semver("01.2.3"));
    assert!(!is_semver("1.02.3"));
    assert!(!is_semver("1.2.03"));
    assert!(!is_semver("1.2.3-01"));
    assert!(is_semver("1.2.3-01a"));
}

#[test]
fn malformed_prereleases_are_rejected() {
    assert!(!is_semver("1.2.3-"));
    assert!(!is_semver("1.2.3-a..b"));
    assert!(!is_semver("1.2.3-a."));
    assert!(!is_semver("1.2.3-al pha"));
    assert!(!is_semver("1.2.3-\u{e9}"));
    assert!(!is_semver("1.2.3+build"));
    assert!(!is_semver("-1.2.3"));
}
