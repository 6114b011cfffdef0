use dactor::version::{WireVersion, DACTOR_WIRE_VERSION};

#[test]
fn parse_current_version() {
    let v = WireVersion::parse(DACTOR_WIRE_VERSION).unwrap();
    assert_eq!(v, WireVersion { major: 0, minor: 2, patch: 0 });
    assert_eq!(v, WireVersion::current());
}

#[test]
fn parse_rejects_malformed() {
    for bad in ["", "1", "1.2", "1.2.", ".1.2", "1..2", "1.2.3.4", "a.b.c", "1.2.x", "4294967296.0.0", " 1.2.3"] {
        let e = WireVersion::parse(bad).unwrap_err();
        assert_eq!(e.input, bad);
        assert_eq!(e.to_string(), format!("invalid wire version: {}", bad));
    }
}

#[test]
fn parse_accepts_large_and_leading_zero_components() {
    assert_eq!(
        WireVersion::parse("4294967295.007.10").unwrap(),
        WireVersion { major: 4294967295, minor: 7, patch: 10 }
    );
}

#[test]
fn version_text_roundtrip() {
    let v = WireVersion { major: 12, minor: 0, patch: 345 };
    assert_eq!(v.to_string(), "12.0.345");
    assert_eq!(WireVersion::parse(&v.to_string()).unwrap(), v);
}

#[test]
fn compatibility_is_same_major() {
    let a = WireVersion { major: 1, minor: 0, patch: 0 };
    let b = WireVersion { major: 1, minor: 9, patch: 3 };
    let c = WireVersion { major: 2, minor: 0, patch: 0 };
    assert!(a.is_compatible(&b));
    assert!(!a.is_compatible(&c));
}
