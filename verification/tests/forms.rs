use uuid::fmt::{Braced, Hyphenated, Simple, Urn};
use uuid::parser::{parse_braced, parse_hyphenated, parse_simple, parse_urn, try_parse};
use uuid::Uuid;

const BYTES: [u8; 16] = [
    0xF9, 0x16, 0x8C, 0x5E, 0xCE, 0xB2, 0x4F, 0xAA, 0xB6, 0xBF, 0x32, 0x9B, 0xF3, 0x9F, 0xA1, 0xE4,
];

#[test]
fn writes_each_form_in_lower_case() {
    let u = Uuid::from_bytes(BYTES);
    let simple: Simple = u.simple();
    let hyphenated: Hyphenated = u.hyphenated();
    let urn: Urn = u.urn();
    let braced: Braced = u.braced();
    assert_eq!(simple.to_string(), "f9168c5eceb24faab6bf329bf39fa1e4");
    assert_eq!(hyphenated.to_string(), "f9168c5e-ceb2-4faa-b6bf-329bf39fa1e4");
    assert_eq!(urn.to_string(), "urn:uuid:f9168c5e-ceb2-4faa-b6bf-329bf39fa1e4");
    assert_eq!(braced.to_string(), "{f9168c5e-ceb2-4faa-b6bf-329bf39fa1e4}");
    assert_eq!(u.to_string(), "f9168c5e-ceb2-4faa-b6bf-329bf39fa1e4");
}

#[test]
fn writes_nil() {
    assert_eq!(Uuid::nil().to_string(), "00000000-0000-0000-0000-000000000000");
    assert_eq!(Uuid::nil().simple().to_string(), "00000000000000000000000000000000");
    assert_eq!(Uuid::nil().as_bytes(), &[0u8; 16]);
}

#[test]
fn reads_each_form_back() {
    for v in [BYTES, [0u8; 16], [0xffu8; 16], [0x0a; 16]] {
        let u = Uuid::from_bytes(v);
        assert_eq!(Uuid::parse_str(&u.simple().to_string()), Ok(u));
        assert_eq!(Uuid::parse_str(&u.hyphenated().to_string()), Ok(u));
        assert_eq!(Uuid::parse_str(&u.urn().to_string()), Ok(u));
        assert_eq!(Uuid::parse_str(&u.braced().to_string()), Ok(u));
        assert_eq!(Uuid::try_parse(&u.to_string()), Ok(u));
    }
}

#[test]
fn rewriting_what_was_read_gives_lower_case() {
    let u = Uuid::parse_str("F9168C5E-CEB2-4FAA-B6bf-329BF39FA1E4").unwrap();
    assert_eq!(u.hyphenated().to_string(), "f9168c5e-ceb2-4faa-b6bf-329bf39fa1e4");
    let u = Uuid::parse_str("F9168C5ECEB24FAAB6BF329BF39FA1E4").unwrap();
    assert_eq!(u.simple().to_string(), "f9168c5eceb24faab6bf329bf39fa1e4");
}

#[test]
fn wrapping_changes_nothing() {
    let h = "67e55044-10b1-426f-9247-bb680e5fe0c8";
    let plain = Uuid::parse_str(h);
    assert_eq!(Uuid::parse_str(&format!("{{{}}}", h)), plain);
    assert_eq!(Uuid::parse_str(&format!("urn:uuid:{}", h)), plain);
    assert_eq!(Uuid::parse_str("67e5504410b1426f9247bb680e5fe0c8"), plain);
    let bad = "67e55044-10b1-426f-9247-bb680e5fe0cZ";
    assert!(Uuid::try_parse(bad).is_err());
    assert!(Uuid::try_parse(&format!("{{{}}}", bad)).is_err());
    assert!(Uuid::try_parse(&format!("urn:uuid:{}", bad)).is_err());
}

#[test]
fn reads_bytes_of_each_form() {
    let expected = [
        0x67, 0xe5, 0x50, 0x44, 0x10, 0xb1, 0x42, 0x6f, 0x92, 0x47, 0xbb, 0x68, 0x0e, 0x5f, 0xe0,
        0xc8,
    ];
    assert_eq!(parse_simple(b"67e5504410b1426f9247bb680e5fe0c8").unwrap(), expected);
    assert_eq!(parse_hyphenated(b"67e55044-10b1-426f-9247-bb680e5fe0c8").unwrap(), expected);
    assert_eq!(parse_braced(b"{67e55044-10b1-426f-9247-bb680e5fe0c8}").unwrap(), expected);
    assert_eq!(parse_urn(b"urn:uuid:67e55044-10b1-426f-9247-bb680e5fe0c8").unwrap(), expected);
    assert_eq!(try_parse(b"67E55044-10B1-426F-9247-BB680E5FE0C8").unwrap(), expected);
}

#[test]
fn rejects_misshaped_forms() {
    assert_eq!(parse_simple(b"67e55044-10b1-426f-9247-bb680e5fe0c8").unwrap_err().0.len(), 36);
    assert!(parse_simple(b"67e5504410b1426f9247bb680e5fe0cz").is_err());
    assert!(parse_hyphenated(b"67e5504410b1426f9247bb680e5fe0c8").is_err());
    assert!(parse_hyphenated(b"67e55044-10b1-426f-9247_bb680e5fe0c8").is_err());
    assert!(parse_hyphenated(b"67e55044-10b1-426f-9247-bb680e5fe0g8").is_err());
    assert!(parse_braced(b"[67e55044-10b1-426f-9247-bb680e5fe0c8]").is_err());
    assert!(parse_urn(b"URN:UUID:67e55044-10b1-426f-9247-bb680e5fe0c8").is_err());
    // A wrapped body that is no hyphenated UUID is named without its wrapping.
    let braced = b"{67e55044-10b1-426f-9247-bb680e5fe0cX}";
    assert_eq!(parse_braced(braced).unwrap_err().0, &braced[1..37]);
    assert_eq!(try_parse(braced).unwrap_err().0, &braced[1..37]);
    let urn = b"urn:uuid:67e55044-10b1-426f-9247-bb680e5fe0cX";
    assert_eq!(parse_urn(urn).unwrap_err().0, &urn[9..45]);
    assert_eq!(try_parse(urn).unwrap_err().0, &urn[9..45]);
    let other = b"67e55044";
    assert_eq!(try_parse(other).unwrap_err().0, &other[..]);
}
