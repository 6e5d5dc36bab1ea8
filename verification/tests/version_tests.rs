use arete_binding::version::api_version_compatible;
use arete_binding::version::api_version_major;
use arete_binding::version::api_version_minor;
use arete_binding::version::api_version_patch;
use arete_binding::version::arete_target_version;
use arete_binding::version::make_api_version;
use arete_binding::version::ENGINE_VERSION;

#[test]
fn packs_fields_into_expected_bits() {
    assert_eq!(make_api_version(0, 1, 0), 1u32 << 15);
    assert_eq!(make_api_version(1, 0, 0), 1u32 << 25);
    assert_eq!(make_api_version(0, 0, 1), 1);
    assert_eq!(make_api_version(2, 3, 5), (2u32 << 25) | (3u32 << 15) | 5);
}

#[test]
fn unpacks_what_was_packed() {
    let v = make_api_version(17, 900, 31000);
    assert_eq!(api_version_major(v), 17);
    assert_eq!(api_version_minor(v), 900);
    assert_eq!(api_version_patch(v), 31000);
}

#[test]
fn engine_version_is_zero_one_zero() {
    assert_eq!(api_version_major(ENGINE_VERSION), 0);
    assert_eq!(api_version_minor(ENGINE_VERSION), 1);
    assert_eq!(api_version_patch(ENGINE_VERSION), 0);
    assert_eq!(arete_target_version(), ENGINE_VERSION);
}

#[test]
fn compatibility_matches_major_and_minor_only() {
    assert!(api_version_compatible(ENGINE_VERSION));
    assert!(api_version_compatible(make_api_version(0, 1, 7)));
    assert!(!api_version_compatible(make_api_version(0, 2, 0)));
    assert!(!api_version_compatible(make_api_version(1, 1, 0)));
}
