use uuid::error::{Error, ErrorKind};
use uuid::parser::{parse_braced, parse_urn};
use uuid::uuid::Uuid;

fn new() -> Uuid {
    Uuid::from_bytes([
        0xF9, 0x16, 0x8C, 0x5E, 0xCE, 0xB2, 0x4F, 0xAA, 0xB6, 0xBF, 0x32, 0x9B, 0xF3, 0x9F, 0xA1,
        0xE4,
    ])
}

#[test]
fn test_parse_uuid_v4_valid() {
    let from_hyphenated = Uuid::parse_str("67e55044-10b1-426f-9247-bb680e5fe0c8").unwrap();
    let from_simple = Uuid::parse_str("67e5504410b1426f9247bb680e5fe0c8").unwrap();
    let from_urn = Uuid::parse_str("urn:uuid:67e55044-10b1-426f-9247-bb680e5fe0c8").unwrap();
    let from_guid = Uuid::parse_str("{67e55044-10b1-426f-9247-bb680e5fe0c8}").unwrap();

    assert_eq!(from_hyphenated, from_simple);
    assert_eq!(from_hyphenated, from_urn);
    assert_eq!(from_hyphenated, from_guid);

    assert!(Uuid::parse_str("00000000000000000000000000000000").is_ok());
    assert!(Uuid::parse_str("67e55044-10b1-426f-9247-bb680e5fe0c8").is_ok());
    assert!(Uuid::parse_str("F9168C5E-CEB2-4faa-B6BF-329BF39FA1E4").is_ok());
    assert!(Uuid::parse_str("67e5504410b1426f9247bb680e5fe0c8").is_ok());
    assert!(Uuid::parse_str("01020304-1112-2122-3132-414243444546").is_ok());
    assert!(Uuid::parse_str("urn:uuid:67e55044-10b1-426f-9247-bb680e5fe0c8").is_ok());
    assert!(Uuid::parse_str("{6d93bade-bd9f-4e13-8914-9474e1e3567b}").is_ok());

    // Nil
    let nil = Uuid::nil();
    assert_eq!(
        Uuid::parse_str("00000000000000000000000000000000").unwrap(),
        nil
    );
    assert_eq!(
        Uuid::parse_str("00000000-0000-0000-0000-000000000000").unwrap(),
        nil
    );
}

#[test]
fn test_parse_uuid_v4_invalid() {
    // Invalid
    assert_eq!(
        Uuid::parse_str(""),
        Err(Error(ErrorKind::SimpleLength { len: 0 }))
    );

    assert_eq!(
        Uuid::parse_str("!"),
        Err(Error(ErrorKind::Char {
            character: '!',
            index: 1,
        }))
    );

    assert_eq!(
        Uuid::parse_str("F9168C5E-CEB2-4faa-B6BF-329BF39FA1E45"),
        Err(Error(ErrorKind::GroupLength {
            group: 4,
            len: 13,
            index: 25,
        }))
    );

    assert_eq!(
        Uuid::parse_str("F9168C5E-CEB2-4faa-BBF-329BF39FA1E4"),
        Err(Error(ErrorKind::GroupLength {
            group: 3,
            len: 3,
            index: 20,
        }))
    );

    assert_eq!(
        Uuid::parse_str("F9168C5E-CEB2-4faa-BGBF-329BF39FA1E4"),
        Err(Error(ErrorKind::Char {
            character: 'G',
            index: 21,
        }))
    );

    assert_eq!(
        Uuid::parse_str("F9168C5E-CEB2F4faaFB6BFF329BF39FA1E4"),
        Err(Error(ErrorKind::GroupCount { count: 2 }))
    );

    assert_eq!(
        Uuid::parse_str("F9168C5E-CEB2-4faaFB6BFF329BF39FA1E4"),
        Err(Error(ErrorKind::GroupCount { count: 3 }))
    );

    assert_eq!(
        Uuid::parse_str("F9168C5E-CEB2-4faa-B6BFF329BF39FA1E4"),
        Err(Error(ErrorKind::GroupCount { count: 4 }))
    );

    assert_eq!(
        Uuid::parse_str("F9168C5E-CEB2-4faa"),
        Err(Error(ErrorKind::GroupCount { count: 3 }))
    );

    assert_eq!(
        Uuid::parse_str("F9168C5E-CEB2-4faaXB6BFF329BF39FA1E4"),
        Err(Error(ErrorKind::Char {
            character: 'X',
            index: 19,
        }))
    );

    assert_eq!(
        Uuid::parse_str("{F9168C5E-CEB2-4faa9B6BFF329BF39FA1E41"),
        Err(Error(ErrorKind::Char {
            character: '{',
            index: 1,
        }))
    );

    assert_eq!(
        Uuid::parse_str("{F9168C5E-CEB2-4faa9B6BFF329BF39FA1E41}"),
        Err(Error(ErrorKind::GroupCount { count: 3 }))
    );

    assert_eq!(
        Uuid::parse_str("F9168C5E-CEB-24fa-eB6BFF32-BF39FA1E4"),
        Err(Error(ErrorKind::GroupLength {
            group: 1,
            len: 3,
            index: 10,
        }))
    );

    // // (group, found, expecting)
    // //
    assert_eq!(
        Uuid::parse_str("01020304-1112-2122-3132-41424344"),
        Err(Error(ErrorKind::GroupLength {
            group: 4,
            len: 8,
            index: 25,
        }))
    );

    assert_eq!(
        Uuid::parse_str("67e5504410b1426f9247bb680e5fe0c"),
        Err(Error(ErrorKind::SimpleLength { len: 31 }))
    );

    assert_eq!(
        Uuid::parse_str("67e5504410b1426f9247bb680e5fe0c88"),
        Err(Error(ErrorKind::SimpleLength { len: 33 }))
    );

    assert_eq!(
        Uuid::parse_str("67e5504410b1426f9247bb680e5fe0cg8"),
        Err(Error(ErrorKind::Char {
            character: 'g',
            index: 32,
        }))
    );

    assert_eq!(
        Uuid::parse_str("67e5504410b1426%9247bb680e5fe0c8"),
        Err(Error(ErrorKind::Char {
            character: '%',
            index: 16,
        }))
    );

    assert_eq!(
        Uuid::parse_str("231231212212423424324323477343246663"),
        Err(Error(ErrorKind::SimpleLength { len: 36 }))
    );

    assert_eq!(
        Uuid::parse_str("{00000000000000000000000000000000}"),
        Err(Error(ErrorKind::GroupCount { count: 1 }))
    );

    assert_eq!(
        Uuid::parse_str("67e5504410b1426f9247bb680e5fe0c"),
        Err(Error(ErrorKind::SimpleLength { len: 31 }))
    );

    assert_eq!(
        Uuid::parse_str("67e550X410b1426f9247bb680e5fe0cd"),
        Err(Error(ErrorKind::Char {
            character: 'X',
            index: 7,
        }))
    );

    assert_eq!(
        Uuid::parse_str("67e550-4105b1426f9247bb680e5fe0c"),
        Err(Error(ErrorKind::GroupCount { count: 2 }))
    );

    assert_eq!(
        Uuid::parse_str("F9168C5E-CEB2-4faa-B6BF1-02BF39FA1E4"),
        Err(Error(ErrorKind::GroupLength {
            group: 3,
            len: 5,
            index: 20,
        }))
    );

    assert_eq!(
        Uuid::parse_str("\u{bcf3c}"),
        Err(Error(ErrorKind::Char {
            character: '\u{bcf3c}',
            index: 1
        }))
    );
}

#[test]
fn test_roundtrip_default() {
    let uuid_orig = new();
    let orig_str = uuid_orig.to_string();
    let uuid_out = Uuid::parse_str(&orig_str).unwrap();
    assert_eq!(uuid_orig, uuid_out);
}

#[test]
fn test_roundtrip_hyphenated() {
    let uuid_orig = new();
    let orig_str = uuid_orig.hyphenated().to_string();
    let uuid_out = Uuid::parse_str(&orig_str).unwrap();
    assert_eq!(uuid_orig, uuid_out);
}

#[test]
fn test_roundtrip_simple() {
    let uuid_orig = new();
    let orig_str = uuid_orig.simple().to_string();
    let uuid_out = Uuid::parse_str(&orig_str).unwrap();
    assert_eq!(uuid_orig, uuid_out);
}

#[test]
fn test_roundtrip_urn() {
    let uuid_orig = new();
    let orig_str = uuid_orig.urn().to_string();
    let uuid_out = Uuid::parse_str(&orig_str).unwrap();
    assert_eq!(uuid_orig, uuid_out);
}

#[test]
fn test_roundtrip_braced() {
    let uuid_orig = new();
    let orig_str = uuid_orig.braced().to_string();
    let uuid_out = Uuid::parse_str(&orig_str).unwrap();
    assert_eq!(uuid_orig, uuid_out);
}

#[test]
fn test_roundtrip_parse_urn() {
    let uuid_orig = new();
    let orig_str = uuid_orig.urn().to_string();
    let uuid_out = Uuid::from_bytes(parse_urn(orig_str.as_bytes()).unwrap());
    assert_eq!(uuid_orig, uuid_out);
}

#[test]
fn test_roundtrip_parse_braced() {
    let uuid_orig = new();
    let orig_str = uuid_orig.braced().to_string();
    let uuid_out = Uuid::from_bytes(parse_braced(orig_str.as_bytes()).unwrap());
    assert_eq!(uuid_orig, uuid_out);
}

#[test]
fn test_try_parse_ascii_non_utf8() {
    assert!(Uuid::try_parse_ascii(b"67e55044-10b1-426f-9247-bb680e5\0e0c8").is_err());
}
