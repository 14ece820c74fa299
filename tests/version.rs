use fkm_connector::version::Version;

#[test]
fn check() {
    assert_eq!(Version::Other.is_newer(&Version::from_str("v2.1.0")), true);
    assert_eq!(Version::Other.is_newer(&Version::from_str("DV1321")), true);
    assert_eq!(
        Version::from_str("DV1714320292").is_newer(&Version::from_str("v2.1.0")),
        true
    );
    assert_eq!(
        Version::from_str("DV1714320292").is_newer(&Version::from_str("DV1714320295")),
        true
    );
    assert_eq!(
        Version::from_str("DV1714320292").is_newer(&Version::from_str("DV1714320291")),
        false
    );
    assert_eq!(Version::from_str("v2.1").is_newer(&Version::from_str("v2.1.0")), true);
    assert_eq!(Version::from_str("v2.1.0").is_newer(&Version::from_str("v2.1.12")), true);
    assert_eq!(Version::from_str("v2.0.1").is_newer(&Version::from_str("v2.0.0")), false);
    assert_eq!(Version::from_str("v2.0.0").is_newer(&Version::from_str("v2.0.0")), false);
    assert_eq!(Version::from_str("v2.2.0").is_newer(&Version::from_str("v2.1.2")), false);
    assert_eq!(Version::from_str("v2.1.2").is_newer(&Version::from_str("v2.2.0")), true);
}

#[test]
fn dev_versions_compare_numbers() {
    assert_eq!(Version::from_str("D10").is_newer(&Version::from_str("D10")), false);
    assert_eq!(Version::from_str("D10").is_newer(&Version::from_str("D11")), true);
    assert_eq!(Version::from_str("D11").is_newer(&Version::from_str("D10")), false);
    assert!(Version::from_str("D1717000000").is_dev());
    assert!(Version::from_str("v1").is_stable());
    assert!(!Version::from_str("x1").is_stable() && !Version::from_str("x1").is_dev());
}

#[test]
fn newer_is_antisymmetric_on_examples() {
    let pairs = [("v2.1", "v2.1.0"), ("v1.10", "v1.9"), ("D5", "D7"), ("v3", "v3")];
    for (a, b) in pairs {
        let (x, y) = (Version::from_str(a), Version::from_str(b));
        assert!(!(x.is_newer(&y) && y.is_newer(&x)));
        assert!(!x.is_newer(&x));
    }
    assert!(!Version::Other.is_newer(&Version::Other));
    assert!(!Version::from_str("v1").is_newer(&Version::Other));
}

#[test]
fn inner_version_text() {
    assert_eq!(Version::from_str("v2.1.0").inner_version(), "2.1.0");
    assert_eq!(Version::from_str("D1717000000").inner_version(), "1717000000");
    assert_eq!(Version::from_str("DV5").inner_version(), "5");
    assert_eq!(Version::from_str("DVx").inner_version(), "0");
    assert!(matches!(Version::from_str("DV1714320292"), Version::Dev(1714320292)));
    assert_eq!(Version::from_str("beta").inner_version(), "Other");
    assert_eq!(Version::from_str("vv3").inner_version(), "3");
}
