use distronomicon::self_update::compare_versions as compare_release_numbers;
use distronomicon::versions::{compare_versions, is_downgrade, version_key};

#[test]
fn detects_semver_downgrade() {
    assert!(is_downgrade("v2.0.0", "v1.9.9"));
    assert!(!is_downgrade("v1.2.0", "v1.3.0"));
}

#[test]
fn compares_semver_like_tags() {
    assert_eq!(compare_release_numbers("v1.3.0", "v1.2.1"), 1);
    assert_eq!(compare_release_numbers("v1.2.1", "v1.2.1"), 0);
    assert_eq!(compare_release_numbers("v1.2.0", "v1.2.1"), -1);
}

#[test]
fn version_key_takes_four_digit_runs_and_zeroes_overflow() {
    assert_eq!(version_key("release-10.2.3.4.5"), vec![10, 2, 3, 4]);
    assert_eq!(version_key("no digits"), Vec::<u64>::new());
    assert_eq!(version_key("v99999999999999999999999.1"), vec![0, 1]);
    assert_eq!(version_key("18446744073709551615"), vec![u64::MAX]);
}

#[test]
fn order_breaks_numeric_ties_by_text() {
    assert_eq!(compare_versions("v1.2", "v1.2.0"), -1);
    assert_eq!(compare_versions("v1.2.0", "V1.2.0"), 1);
    assert_eq!(compare_versions("x", "x"), 0);
    assert_eq!(compare_versions("v10.0", "v9.9"), 1);
}

#[test]
fn release_order_ignores_trailing_zeros() {
    assert_eq!(compare_release_numbers("v1.2", "v1.2.0"), 0);
    assert_eq!(compare_release_numbers("1.2.0.0.7", "1.2"), 0);
    assert_eq!(compare_release_numbers("v2", "v10"), -1);
}
