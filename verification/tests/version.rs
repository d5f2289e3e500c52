use zeron::version::{is_newer, parse_version, strip_tag};

#[test]
fn newer_patch_minor_and_major_all_update() {
    assert!(is_newer("0.3.1", "0.3.2"));
    assert!(is_newer("0.3.1", "0.4.0"));
    assert!(is_newer("0.3.1", "1.0.0"));
    assert!(is_newer("0.3.1", "v0.3.2"));
}

#[test]
fn same_or_older_release_never_updates() {
    assert!(!is_newer("0.3.1", "0.3.1"));
    assert!(!is_newer("0.3.1", "0.3.0"));
    assert!(!is_newer("0.10.0", "0.9.9"));
    // A dev build ahead of the published Release stays put.
    assert!(!is_newer("0.4.0", "0.3.9"));
}

#[test]
fn prerelease_loses_ties_to_the_final_build() {
    assert!(is_newer("0.4.0-rc.1", "0.4.0"));
    assert!(!is_newer("0.4.0", "0.4.0-rc.2"));
    assert!(is_newer("0.3.1", "0.4.0-rc.1"));
}

#[test]
fn unparseable_tags_are_not_updates() {
    // A malformed feed must never trigger a download.
    assert!(!is_newer("0.3.1", "nightly"));
    assert!(!is_newer("0.3.1", ""));
    assert!(!is_newer("0.3.1", "0.3.2.1"));
}

#[test]
fn versions_are_read_number_by_number() {
    let version = parse_version("v1.20.300-beta").unwrap();
    assert_eq!((version.major, version.minor, version.patch), (1, 20, 300));
    assert!(!version.release);
    assert!(parse_version("1.2.3").unwrap().release);
    assert_eq!(parse_version("1.2").unwrap().patch, 0);
    assert!(parse_version("1.2.x").is_none());
    assert_eq!(strip_tag("v1.2.3"), "1.2.3");
}
