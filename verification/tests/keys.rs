use keyfinder::KeyFinderKey;

#[test]
fn test_keyfinder_key_enum_values() {
    // Test that all key enum values are distinct
    assert_eq!(KeyFinderKey::AMajor as u32, 0);
    assert_eq!(KeyFinderKey::AMinor as u32, 1);
    assert_eq!(KeyFinderKey::Silence as u32, 24);
}

#[test]
fn test_keyfinder_key_from_u32() {
    assert_eq!(KeyFinderKey::from_u32(0), KeyFinderKey::AMajor);
    assert_eq!(KeyFinderKey::from_u32(1), KeyFinderKey::AMinor);
    assert_eq!(KeyFinderKey::from_u32(24), KeyFinderKey::Silence);
    assert_eq!(KeyFinderKey::from_u32(999), KeyFinderKey::Silence);
}

#[test]
fn from_u32_boundary_codes() {
    assert_eq!(KeyFinderKey::from_u32(23), KeyFinderKey::AFlatMinor);
    assert_eq!(KeyFinderKey::from_u32(6), KeyFinderKey::CMajor);
    assert_eq!(KeyFinderKey::from_u32(25), KeyFinderKey::Silence);
}

#[test]
fn from_u32_inverts_enum_codes() {
    for code in 0..=24u32 {
        let key = KeyFinderKey::from_u32(code);
        assert_eq!(key as u32, code);
    }
}
