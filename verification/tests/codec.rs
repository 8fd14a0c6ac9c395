use openssl_build::errors::BuildError;
use openssl_build::version::{classify_version, parse_new_version, parse_version, version_error, Version};

#[test]
fn legacy_decodes_hex_literal() {
    assert_eq!(parse_version("0x100020cfL"), Ok(0x100020cf));
}

#[test]
fn legacy_strips_any_trailing_non_hex_suffix() {
    assert_eq!(parse_version("0x1010103fUL"), Ok(0x1010103f));
    assert_eq!(parse_version("0x10XYZXYZXYZ"), Ok(0x10));
    assert_eq!(parse_version("0x30000000"), Ok(0x30000000));
}

#[test]
fn legacy_rejects_missing_marker() {
    assert_eq!(parse_version("100020cfL"), Err(BuildError::MalformedVersion));
    assert_eq!(parse_version(""), Err(BuildError::MalformedVersion));
    assert_eq!(parse_version("0"), Err(BuildError::MalformedVersion));
}

#[test]
fn legacy_rejects_empty_or_inner_garbage() {
    assert_eq!(parse_version("0xL"), Err(BuildError::MalformedVersion));
    assert_eq!(parse_version("0x10zz20L"), Err(BuildError::MalformedVersion));
}

#[test]
fn legacy_rejects_overflow() {
    assert_eq!(parse_version("0x10000000000000000L"), Err(BuildError::MalformedVersion));
    assert_eq!(parse_version("0xffffffffffffffffL"), Ok(u64::MAX));
}

#[test]
fn modern_packs_triple() {
    assert_eq!(parse_new_version("3_0_0"), Ok((3 << 28) | (0 << 20) | (0 << 4)));
    assert_eq!(parse_new_version("3_2_1"), Ok((3 << 28) | (2 << 20) | (1 << 4)));
}

#[test]
fn modern_rejects_wrong_arity() {
    assert_eq!(parse_new_version("3_0"), Err(BuildError::MalformedVersion));
    assert_eq!(parse_new_version("3_0_0_0"), Err(BuildError::MalformedVersion));
    assert_eq!(parse_new_version(""), Err(BuildError::MalformedVersion));
}

#[test]
fn modern_rejects_non_numeric_components() {
    assert_eq!(parse_new_version("3_a_0"), Err(BuildError::MalformedVersion));
    assert_eq!(parse_new_version("3__0"), Err(BuildError::MalformedVersion));
    assert_eq!(parse_new_version("1_1_1c"), Err(BuildError::MalformedVersion));
}

#[test]
fn modern_rejects_oversized_fields() {
    assert_eq!(parse_new_version("1_256_0"), Err(BuildError::MalformedVersion));
    assert_eq!(parse_new_version("1_0_65536"), Err(BuildError::MalformedVersion));
    assert_eq!(parse_new_version("1_255_65535"), Ok((1 << 28) | (255 << 20) | (65535 << 4)));
}

#[test]
fn formats_order_releases_alike() {
    // The same chronology in either format: 1.0.2, then 1.1.1c, then 3.0.0.
    let v102 = parse_version("0x100020cfL").unwrap();
    let v111c = parse_version("0x1010103fL").unwrap();
    let v300_legacy_style = parse_version("0x30000000L").unwrap();
    let v300 = parse_new_version("3_0_0").unwrap();
    let v320 = parse_new_version("3_2_0").unwrap();
    assert!(v102 < v111c);
    assert!(v111c < v300);
    assert!(v111c < v300_legacy_style);
    assert!(v300 < v320);
}

#[test]
fn classification_boundaries_are_inclusive() {
    assert_eq!(classify_version(0x1010_0fff), Err(BuildError::UnsupportedVersion));
    assert_eq!(classify_version(0x1010_1000), Ok(Version::Openssl11x));
    assert_eq!(classify_version(0x1010_103f), Ok(Version::Openssl11x));
    assert_eq!(classify_version(0x2fff_ffff), Ok(Version::Openssl11x));
    assert_eq!(classify_version(0x3000_0000), Ok(Version::Openssl30x));
    assert_eq!(classify_version(0x3fff_ffff), Ok(Version::Openssl30x));
    assert_eq!(classify_version(0x4000_0000), Err(BuildError::UnsupportedVersion));
    assert_eq!(classify_version(u64::MAX), Err(BuildError::UnsupportedVersion));
}

#[test]
fn version_error_is_the_unsupported_error() {
    assert_eq!(version_error(), BuildError::UnsupportedVersion);
}

#[test]
fn tiers_grow_with_version() {
    assert_eq!(openssl_build::cfgs::get(Some(0x1010_1000)), vec!["ossl111"]);
    assert_eq!(openssl_build::cfgs::get(Some(0x1010_1020)), vec!["ossl111b", "ossl111"]);
    assert_eq!(
        openssl_build::cfgs::get(Some(0x1010_1030)),
        vec!["ossl111c", "ossl111b", "ossl111"]
    );
    assert_eq!(
        openssl_build::cfgs::get(Some(0x3000_0000)),
        vec!["ossl300", "ossl111c", "ossl111b", "ossl111"]
    );
    assert_eq!(openssl_build::cfgs::get(Some(0x1010_0000)), Vec::<&str>::new());
}
