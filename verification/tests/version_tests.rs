use upgradepath::error::EngineError;
use upgradepath::text::Precedence;
use upgradepath::version::{build_semver, normalize, read_number, Version};

fn version(major: u64, minor: u64, patch: u64, pre: &str) -> Version {
    Version { major, minor, patch, pre: pre.to_string() }
}

fn number(text: &str) -> Option<u64> {
    read_number(text)
}

#[test]
fn normalize_reads_what_follows_the_version_mark() {
    assert_eq!(normalize("etcd-operator.v4.5.1"), Ok(version(4, 5, 1, "")));
}

#[test]
fn normalize_reads_a_bare_major_version() {
    assert_eq!(normalize("v7"), Ok(version(7, 0, 0, "")));
    assert_eq!(normalize("pkg.v7"), Ok(version(7, 0, 0, "")));
}

#[test]
fn normalize_strips_the_first_segment_of_a_name_without_mark() {
    assert_eq!(normalize("pkg.4.5.1-rc1"), Ok(version(4, 5, 1, "rc1")));
    assert_eq!(normalize("3scale-operator.0.8.0"), Ok(version(0, 8, 0, "")));
    assert_eq!(normalize("4.5.1-rc1"), Err(EngineError::MalformedVersion));
}

#[test]
fn normalize_takes_the_last_version_mark() {
    assert_eq!(normalize("a.v1.0.0.v2.3.4"), Ok(version(2, 3, 4, "")));
}

#[test]
fn normalize_reads_a_legacy_major_after_the_last_v() {
    assert_eq!(normalize("pkg.release-v3"), Ok(version(3, 0, 0, "")));
    assert_eq!(normalize("pkg.12"), Ok(version(12, 0, 0, "")));
}

#[test]
fn normalize_rejects_what_holds_no_number() {
    assert_eq!(normalize(""), Err(EngineError::MalformedVersion));
    assert_eq!(normalize("pkg"), Err(EngineError::MalformedVersion));
    assert_eq!(normalize("pkg.v"), Err(EngineError::MalformedVersion));
    assert_eq!(normalize("pkg.v1.2"), Err(EngineError::MalformedVersion));
    assert_eq!(normalize("pkg.v1.x.3"), Err(EngineError::MalformedVersion));
    assert_eq!(normalize("pkg.v1.2.-rc1"), Err(EngineError::MalformedVersion));
}

#[test]
fn payload_with_prerelease_label() {
    assert_eq!(build_semver("4.5.1-rc1"), Ok(version(4, 5, 1, "rc1")));
}

#[test]
fn payload_label_ends_at_the_second_hyphen() {
    assert_eq!(build_semver("1.2.3-rc-1"), Ok(version(1, 2, 3, "rc")));
    assert_eq!(build_semver("1.2.3-"), Ok(version(1, 2, 3, "")));
}

#[test]
fn payload_ignores_components_after_the_third() {
    assert_eq!(build_semver("1.2.3.4"), Ok(version(1, 2, 3, "")));
    assert_eq!(build_semver("1.2.3-rc1.9"), Ok(version(1, 2, 3, "rc1")));
    assert_eq!(build_semver("1.2.3.4-rc1"), Ok(version(1, 2, 3, "")));
}

#[test]
fn payload_with_fewer_dots_is_a_major_version() {
    assert_eq!(build_semver("7"), Ok(version(7, 0, 0, "")));
    assert_eq!(build_semver("v7"), Ok(version(7, 0, 0, "")));
    assert_eq!(build_semver("xv1v9"), Ok(version(9, 0, 0, "")));
    assert_eq!(build_semver("x.v9"), Ok(version(9, 0, 0, "")));
    assert_eq!(build_semver("1.2"), Err(EngineError::MalformedVersion));
    assert_eq!(build_semver("v"), Err(EngineError::MalformedVersion));
}

#[test]
fn numbers_are_decimal_with_an_optional_plus() {
    assert_eq!(number("0"), Some(0));
    assert_eq!(number("007"), Some(7));
    assert_eq!(number("+15"), Some(15));
    assert_eq!(number("18446744073709551615"), Some(u64::MAX));
    assert_eq!(number("18446744073709551616"), None);
    assert_eq!(number("99999999999999999999999"), None);
    assert_eq!(number(""), None);
    assert_eq!(number("+"), None);
    assert_eq!(number("-1"), None);
    assert_eq!(number("1_0"), None);
    assert_eq!(number(" 1"), None);
    assert_eq!(number("1a"), None);
}

#[test]
fn versions_order_by_their_numbers_first() {
    assert_eq!(version(1, 9, 9, "").precedence(&version(2, 0, 0, "")), Precedence::Lower);
    assert_eq!(version(1, 10, 0, "").precedence(&version(1, 9, 0, "")), Precedence::Higher);
    assert_eq!(version(1, 2, 3, "").precedence(&version(1, 2, 4, "rc1")), Precedence::Lower);
    assert_eq!(version(1, 2, 3, "").precedence(&version(1, 2, 3, "")), Precedence::Same);
}

#[test]
fn release_stands_above_its_prereleases() {
    let release = version(1, 2, 3, "");
    let candidate = version(1, 2, 3, "rc1");
    assert_eq!(release.precedence(&candidate), Precedence::Higher);
    assert_eq!(candidate.precedence(&release), Precedence::Lower);
    assert_eq!(candidate.precedence(&candidate), Precedence::Same);
}

#[test]
fn prerelease_labels_order_lexicographically() {
    assert_eq!(version(1, 0, 0, "alpha").precedence(&version(1, 0, 0, "beta")), Precedence::Lower);
    assert_eq!(version(1, 0, 0, "rc10").precedence(&version(1, 0, 0, "rc9")), Precedence::Lower);
    assert_eq!(version(1, 0, 0, "rc").precedence(&version(1, 0, 0, "rc1")), Precedence::Lower);
    assert_eq!(version(1, 0, 0, "10").precedence(&version(1, 0, 0, "9")), Precedence::Lower);
}

#[test]
fn zero_and_duplicate() {
    assert_eq!(Version::zero(), version(0, 0, 0, ""));
    let v = version(3, 1, 4, "pre");
    assert_eq!(v.duplicate(), v);
}
