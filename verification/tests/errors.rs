use std::convert::TryFrom;
use uuid::error::InvalidUuid;
use uuid::{Error, ErrorKind, Uuid};

#[test]
fn try_parse_gives_no_diagnosis() {
    assert_eq!(Uuid::try_parse("zz"), Err(Error(ErrorKind::Other)));
    assert_eq!(Uuid::try_parse(""), Err(Error(ErrorKind::Other)));
    assert_eq!(Uuid::try_parse_ascii(&[0xff; 32]), Err(Error(ErrorKind::Other)));
}

#[test]
fn bytes_that_are_no_text() {
    assert_eq!(InvalidUuid(&[0x67, 0xff]).into_err(), Error(ErrorKind::InvalidUTF8));
    assert_eq!(InvalidUuid(&[0xc3]).into_err(), Error(ErrorKind::InvalidUTF8));
}

#[test]
fn wrapped_body_is_diagnosed_alone() {
    // The body of a braced or URN text of the right length is read alone.
    assert_eq!(
        Uuid::parse_str("{67e55044-10b1-426f-9247-bb680e5fe0cX}"),
        Err(Error(ErrorKind::Char { character: 'X', index: 36 }))
    );
    assert_eq!(
        Uuid::parse_str("urn:uuid:67e55044-10b1-426f-9247-bb680e5fe0cX"),
        Err(Error(ErrorKind::Char { character: 'X', index: 36 }))
    );
    // A wrapped text of another length is read with its wrapping.
    assert_eq!(
        Uuid::parse_str("{67e55044-10b1-426f-9247-bb680e5fe0c8X}"),
        Err(Error(ErrorKind::Char { character: 'X', index: 38 }))
    );
    assert_eq!(
        Uuid::parse_str("urn:uuid:67e55044-10b1-426f-9247-bb680e5fe0c8X"),
        Err(Error(ErrorKind::Char { character: 'X', index: 46 }))
    );
}

#[test]
fn group_errors() {
    assert_eq!(Uuid::parse_str("{}"), Err(Error(ErrorKind::GroupCount { count: 1 })));
    assert_eq!(Uuid::parse_str("urn:uuid:"), Err(Error(ErrorKind::GroupCount { count: 1 })));
    assert_eq!(Uuid::parse_str("-"), Err(Error(ErrorKind::GroupCount { count: 2 })));
    assert_eq!(
        Uuid::parse_str("a-b-c-d-e-f"),
        Err(Error(ErrorKind::GroupCount { count: 6 }))
    );
    assert_eq!(
        Uuid::parse_str("67e5504-410b1-426f-9247-bb680e5fe0c8"),
        Err(Error(ErrorKind::GroupLength { group: 0, len: 7, index: 1 }))
    );
    assert_eq!(
        Uuid::parse_str("67e55044-10b1-426f9-247-bb680e5fe0c8"),
        Err(Error(ErrorKind::GroupLength { group: 2, len: 5, index: 15 }))
    );
    // The last group's length is counted over the whole text, braces too.
    assert_eq!(
        Uuid::parse_str("{67e55044-10b1-426f-9247-bb680e5fe0c8a}"),
        Err(Error(ErrorKind::GroupLength { group: 4, len: 15, index: 26 }))
    );
}

#[test]
fn non_ascii_characters() {
    assert_eq!(
        Uuid::parse_str("67e5504410b1426f9247bb680e5fe0\u{e9}8"),
        Err(Error(ErrorKind::Char { character: '\u{e9}', index: 31 }))
    );
    assert_eq!(
        Uuid::parse_str("67e55044-10b1-426f-9247-bb680e5fe\u{1f600}"),
        Err(Error(ErrorKind::Char { character: '\u{1f600}', index: 34 }))
    );
    assert_eq!(
        Uuid::parse_str("\u{12d}"),
        Err(Error(ErrorKind::Char { character: '\u{12d}', index: 1 }))
    );
}

#[test]
fn simple_length_errors() {
    assert_eq!(
        Uuid::parse_str("67e5504410b1426f9247bb680e5fe0c8aa"),
        Err(Error(ErrorKind::SimpleLength { len: 34 }))
    );
    assert_eq!(Uuid::parse_str("a"), Err(Error(ErrorKind::SimpleLength { len: 1 })));
}

#[test]
fn from_str_parses() {
    let u: Uuid = "67e55044-10b1-426f-9247-bb680e5fe0c8".parse().unwrap();
    assert_eq!(u, Uuid::parse_str("67e5504410b1426f9247bb680e5fe0c8").unwrap());
    assert_eq!("!".parse::<Uuid>(), Err(Error(ErrorKind::Char { character: '!', index: 1 })));
}

#[test]
fn try_from_parses() {
    assert_eq!(
        Uuid::try_from("urn:uuid:67e55044-10b1-426f-9247-bb680e5fe0c8"),
        Uuid::parse_str("67e55044-10b1-426f-9247-bb680e5fe0c8")
    );
    assert_eq!(Uuid::try_from(""), Err(Error(ErrorKind::SimpleLength { len: 0 })));
}
