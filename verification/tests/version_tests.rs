use release_monitor::project::{Project, ReleaseType};
use release_monitor::version::Version;

fn v(major: Option<u16>, minor: Option<u16>, patch: Option<u16>) -> Version {
    Version { major, minor, patch, revision: None }
}

#[test]
fn prefix_letters_and_dash_are_taken_off() {
    assert_eq!(Version::new(&"v1.2.3".to_string()), v(Some(1), Some(2), Some(3)));
    assert_eq!(Version::new(&"release-2.0".to_string()), v(Some(2), Some(0), None));
    assert_eq!(Version::new(&"-4".to_string()), v(Some(4), None, None));
    assert_eq!(Version::try_new(&"1.10".to_string()), Some(v(Some(1), Some(10), None)));
}

#[test]
fn unreadable_numbers() {
    // the first number falls back to 0, the others are absent
    assert_eq!(Version::new(&"abc".to_string()), v(Some(0), None, None));
    assert_eq!(Version::new(&"1.x.3".to_string()), v(Some(1), None, Some(3)));
    assert_eq!(Version::new(&"1.2.3-4".to_string()), v(Some(1), Some(2), None));
    assert_eq!(Version::new(&"70000.1".to_string()), v(Some(0), Some(1), None));
}

#[test]
fn revision_is_never_read() {
    for name in ["1.2.3-4", "1-2", "v9.9.9.9-9", ""] {
        assert_eq!(Version::new(&name.to_string()).revision, None);
    }
    assert_eq!(Version::from_unprefixed("1.2.3-4"), v(Some(1), Some(2), None));
}

#[test]
fn numbers_compare_with_absent_below_present() {
    assert_eq!(Project::match_version_number(None, Some(0)), ReleaseType::NEWER);
    assert_eq!(Project::match_version_number(Some(0), None), ReleaseType::OLDER);
    assert_eq!(Project::match_version_number(None, None), ReleaseType::SAME);
    assert_eq!(Project::match_version_number(Some(3), Some(4)), ReleaseType::NEWER);
    assert_eq!(Project::match_version_number(Some(4), Some(4)), ReleaseType::SAME);
    assert_eq!(Project::match_version_number(Some(5), Some(4)), ReleaseType::OLDER);
}

#[test]
fn versions_compare_by_first_differing_number() {
    let a = v(Some(1), Some(2), Some(3));
    let b = v(Some(1), Some(3), Some(0));
    assert_eq!(Project::match_version(a, b), ReleaseType::NEWER);
    assert_eq!(Project::match_version(b, a), ReleaseType::OLDER);
    assert_eq!(Project::match_version(a, a), ReleaseType::SAME);
    let c = v(Some(2), None, None);
    // transitivity on concrete values
    assert_eq!(Project::match_version(a, c), ReleaseType::NEWER);
    assert_eq!(Project::match_version(b, c), ReleaseType::NEWER);
    assert_eq!(Project::match_version(v(Some(1), None, None), v(Some(1), Some(0), None)), ReleaseType::NEWER);
}
