//! Parsing of the four textual forms of a UUID: simple (32 hexadecimal
//! digits), hyphenated (`8-4-4-4-12` digits), braced (`{` hyphenated `}`)
//! and URN (`urn:uuid:` hyphenated).
use vstd::prelude::*;
use crate::ascii::{CLOSE_BRACE, HYPHEN, OPEN_BRACE, urn_prefix, has_urn_prefix};
use crate::error::{Error, ErrorKind, InvalidUuid, lemma_valid_text_error, spec_error_kind};
use crate::text::lemma_boundary_after_ascii;
use crate::fmt::{spec_encode_braced, spec_encode_hyphenated, spec_encode_simple, spec_encode_urn};
use crate::roundtrip::{
    lemma_braced_roundtrip, lemma_hyphenated_roundtrip, lemma_simple_roundtrip, lemma_urn_roundtrip,
};
use crate::hex::{is_hex_digit, hex_pair_value, hex_value, hex_pair};
use crate::uuid::{Uuid, lemma_spec_uuid, lemma_spec_uuid_view, spec_uuid};

verus! {

/// Every byte of `d` is a hexadecimal digit.
pub open spec fn all_hex(d: Seq<u8>) -> bool {
    forall|k: int| 0 <= k < d.len() ==> #[trigger] is_hex_digit(d[k])
}

/// The sixteen bytes written by 32 hexadecimal digits, two digits a byte.
pub open spec fn decode_hex(d: Seq<u8>) -> Seq<u8> {
    Seq::new(16, |i: int| hex_pair_value(d[2 * i], d[2 * i + 1]))
}

/// Whether position `i` of a hyphenated UUID holds a hyphen.
pub open spec fn is_hyphen_pos(i: int) -> bool {
    i == 8 || i == 13 || i == 18 || i == 23
}

/// The position in a hyphenated UUID of its `k`-th hexadecimal digit.
pub open spec fn digit_pos(k: int) -> int {
    if k < 8 {
        k
    } else if k < 12 {
        k + 1
    } else if k < 16 {
        k + 2
    } else if k < 20 {
        k + 3
    } else {
        k + 4
    }
}

/// The 32 digits of a hyphenated UUID, without its hyphens.
pub open spec fn hyphenated_digits(s: Seq<u8>) -> Seq<u8> {
    Seq::new(32, |k: int| s[digit_pos(k)])
}

/// What a simple UUID (32 hexadecimal digits) holds, if `s` is one.
pub open spec fn spec_parse_simple(s: Seq<u8>) -> Option<Seq<u8>> {
    if s.len() == 32 && all_hex(s) {
        Some(decode_hex(s))
    } else {
        None
    }
}

/// What a hyphenated UUID (`8-4-4-4-12` hexadecimal digits) holds, if `s`
/// is one.
pub open spec fn spec_parse_hyphenated(s: Seq<u8>) -> Option<Seq<u8>> {
    if s.len() == 36 && s[8] == HYPHEN && s[13] == HYPHEN && s[18] == HYPHEN && s[23] == HYPHEN
        && all_hex(hyphenated_digits(s)) {
        Some(decode_hex(hyphenated_digits(s)))
    } else {
        None
    }
}

/// `s` has the length of a braced UUID, and its braces.
pub open spec fn is_braced_shape(s: Seq<u8>) -> bool {
    s.len() == 38 && s[0] == OPEN_BRACE && s[37] == CLOSE_BRACE
}

/// `s` has the length of a URN UUID, and its prefix.
pub open spec fn is_urn_shape(s: Seq<u8>) -> bool {
    s.len() == 45 && s.subrange(0, 9) == urn_prefix()
}

/// What a braced UUID holds, if `s` is one.
pub open spec fn spec_parse_braced(s: Seq<u8>) -> Option<Seq<u8>> {
    if is_braced_shape(s) {
        spec_parse_hyphenated(s.subrange(1, 37))
    } else {
        None
    }
}

/// What a URN UUID holds, if `s` is one.
pub open spec fn spec_parse_urn(s: Seq<u8>) -> Option<Seq<u8>> {
    if is_urn_shape(s) {
        spec_parse_hyphenated(s.subrange(9, 45))
    } else {
        None
    }
}

/// What a UUID in any of the four forms holds, if `s` is one. The form is
/// told by the length: 32 is simple, 36 hyphenated, 38 braced, 45 URN.
pub open spec fn spec_try_parse(s: Seq<u8>) -> Option<Seq<u8>> {
    if s.len() == 32 {
        spec_parse_simple(s)
    } else if s.len() == 36 {
        spec_parse_hyphenated(s)
    } else if is_braced_shape(s) {
        spec_parse_braced(s)
    } else if is_urn_shape(s) {
        spec_parse_urn(s)
    } else {
        None
    }
}

/// The part of a rejected input that the rejection names: the hyphenated
/// UUID inside the braces or after the URN prefix where the input has that
/// shape, else the whole input.
pub open spec fn rejected_part(s: Seq<u8>) -> Seq<u8> {
    if s.len() == 32 || s.len() == 36 {
        s
    } else if is_braced_shape(s) {
        s.subrange(1, 37)
    } else if is_urn_shape(s) {
        s.subrange(9, 45)
    } else {
        s
    }
}

/// Parses a simple UUID: exactly 32 hexadecimal digits.
pub fn parse_simple<'a>(s: &'a [u8]) -> (r: Result<[u8; 16], InvalidUuid<'a>>)
    ensures
        r matches Ok(b) ==> spec_parse_simple(s@) == Some(b@),
        r matches Err(e) ==> spec_parse_simple(s@) is None && e.0@ == s@,
{
    if s.len() != 32 {
        return Err(InvalidUuid(s));
    }
    let mut buf: [u8; 16] = [0u8; 16];
    let mut i: usize = 0;
    while i < 16
        invariant
            s@.len() == 32,
            0 <= i <= 16,
            forall|k: int| 0 <= k < 2 * i ==> #[trigger] is_hex_digit(s@[k]),
            forall|j: int| 0 <= j < i ==> buf@[j] == #[trigger] decode_hex(s@)[j],
        decreases 16 - i,
    {
        let h1: u8 = hex_value(s[i * 2]);
        let h2: u8 = hex_value(s[i * 2 + 1]);
        if h1 == 0xff || h2 == 0xff {
            proof {
                if h1 == 0xff {
                    assert(!is_hex_digit(s@[2 * i as int]));
                } else {
                    assert(!is_hex_digit(s@[2 * i + 1]));
                }
            }
            return Err(InvalidUuid(s));
        }
        buf[i] = hex_pair(h1, h2);
        i += 1;
    }
    assert(buf@ =~= decode_hex(s@));
    Ok(buf)
}

/// The position of the first of the four digits of group `j` (counted in
/// fours) in a hyphenated UUID.
fn quad_start(j: usize) -> (p: usize)
    requires
        j < 8,
    ensures
        p == digit_pos(4 * j),
        forall|t: int| 0 <= t < 4 ==> #[trigger] digit_pos(4 * j + t) == p + t,
        p + 4 <= 36,
{
    if j < 2 {
        4 * j
    } else if j < 3 {
        9
    } else if j < 4 {
        14
    } else if j < 5 {
        19
    } else {
        4 * j + 4
    }
}

/// Parses a hyphenated UUID: 36 bytes, hyphens at positions 8, 13, 18 and 23,
/// hexadecimal digits everywhere else.
pub fn parse_hyphenated<'a>(s: &'a [u8]) -> (r: Result<[u8; 16], InvalidUuid<'a>>)
    ensures
        r matches Ok(b) ==> spec_parse_hyphenated(s@) == Some(b@),
        r matches Err(e) ==> spec_parse_hyphenated(s@) is None && e.0@ == s@,
{
    if s.len() != 36 {
        return Err(InvalidUuid(s));
    }
    if !(s[8] == HYPHEN && s[13] == HYPHEN && s[18] == HYPHEN && s[23] == HYPHEN) {
        return Err(InvalidUuid(s));
    }
    let ghost d = hyphenated_digits(s@);
    let mut buf: [u8; 16] = [0u8; 16];
    let mut j: usize = 0;
    while j < 8
        invariant
            s@.len() == 36,
            d == hyphenated_digits(s@),
            0 <= j <= 8,
            forall|k: int| 0 <= k < 4 * j ==> #[trigger] is_hex_digit(d[k]),
            forall|m: int| 0 <= m < 2 * j ==> buf@[m] == #[trigger] decode_hex(d)[m],
        decreases 8 - j,
    {
        let i: usize = quad_start(j);
        let h1: u8 = hex_value(s[i]);
        let h2: u8 = hex_value(s[i + 1]);
        let h3: u8 = hex_value(s[i + 2]);
        let h4: u8 = hex_value(s[i + 3]);
        assert(d[4 * j as int] == s@[i as int]);
        assert(d[4 * j + 1] == s@[i + 1]);
        assert(d[4 * j + 2] == s@[i + 2]);
        assert(d[4 * j + 3] == s@[i + 3]);
        if h1 == 0xff || h2 == 0xff || h3 == 0xff || h4 == 0xff {
            proof {
                if h1 == 0xff {
                    assert(!is_hex_digit(d[4 * j as int]));
                } else if h2 == 0xff {
                    assert(!is_hex_digit(d[4 * j + 1]));
                } else if h3 == 0xff {
                    assert(!is_hex_digit(d[4 * j + 2]));
                } else {
                    assert(!is_hex_digit(d[4 * j + 3]));
                }
            }
            return Err(InvalidUuid(s));
        }
        buf[j * 2] = hex_pair(h1, h2);
        buf[j * 2 + 1] = hex_pair(h3, h4);
        j += 1;
    }
    assert(buf@ =~= decode_hex(d));
    Ok(buf)
}

/// Parses a braced UUID: `{`, a hyphenated UUID, `}`.
pub fn parse_braced<'a>(input: &'a [u8]) -> (r: Result<[u8; 16], InvalidUuid<'a>>)
    ensures
        r matches Ok(b) ==> spec_parse_braced(input@) == Some(b@),
        r matches Err(e) ==> spec_parse_braced(input@) is None && e.0@ == (if is_braced_shape(
            input@,
        ) {
            input@.subrange(1, 37)
        } else {
            input@
        }),
{
    if input.len() == 38 && input[0] == OPEN_BRACE && input[37] == CLOSE_BRACE {
        parse_hyphenated(&input[1..37])
    } else {
        Err(InvalidUuid(input))
    }
}

/// Parses a UUID written as a URN: `urn:uuid:` and a hyphenated UUID.
pub fn parse_urn<'a>(input: &'a [u8]) -> (r: Result<[u8; 16], InvalidUuid<'a>>)
    ensures
        r matches Ok(b) ==> spec_parse_urn(input@) == Some(b@),
        r matches Err(e) ==> spec_parse_urn(input@) is None && e.0@ == (if is_urn_shape(input@) {
            input@.subrange(9, 45)
        } else {
            input@
        }),
{
    if input.len() == 45 && has_urn_prefix(input) {
        parse_hyphenated(&input[9..45])
    } else {
        Err(InvalidUuid(input))
    }
}

/// Parses a UUID in any of its four forms, told apart by length: 32 bytes
/// simple, 36 hyphenated, 38 braced, 45 URN.
pub fn try_parse<'a>(input: &'a [u8]) -> (r: Result<[u8; 16], InvalidUuid<'a>>)
    ensures
        r matches Ok(b) ==> spec_try_parse(input@) == Some(b@),
        r matches Err(e) ==> spec_try_parse(input@) is None && e.0@ == rejected_part(input@),
{
    let len: usize = input.len();
    if len == 32 {
        parse_simple(input)
    } else if len == 36 {
        parse_hyphenated(input)
    } else if len == 38 && input[0] == OPEN_BRACE && input[37] == CLOSE_BRACE {
        parse_hyphenated(&input[1..37])
    } else if len == 45 && has_urn_prefix(input) {
        parse_hyphenated(&input[9..45])
    } else {
        Err(InvalidUuid(input))
    }
}

impl Uuid {
    /// Parses a UUID from a text in any of the four forms. A rejected input
    /// is diagnosed in detail (see [`spec_error_kind`]); braces or a URN
    /// prefix around a body of the right length are not part of that
    /// diagnosis, which then reads the body alone.
    pub fn parse_str(input: &str) -> (r: Result<Uuid, Error>)
        ensures
            r matches Ok(u) ==> spec_try_parse(vstd::utf8::encode_utf8(input@)) == Some(u@),
            r matches Err(e) ==> spec_try_parse(vstd::utf8::encode_utf8(input@)) is None && e
                == Error(spec_error_kind(rejected_part(vstd::utf8::encode_utf8(input@)))),
    {
        match try_parse(input.as_bytes()) {
            Ok(bytes) => Ok(Uuid::from_bytes(bytes)),
            Err(invalid) => Err(invalid.into_err()),
        }
    }

    /// Parses a UUID from ASCII bytes in any of the four forms. A rejected
    /// input gives [`ErrorKind::Other`], without diagnosis.
    pub fn try_parse_ascii(input: &[u8]) -> (r: Result<Uuid, Error>)
        ensures
            r matches Ok(u) ==> spec_try_parse(input@) == Some(u@),
            r matches Err(e) ==> spec_try_parse(input@) is None && e == Error(ErrorKind::Other),
    {
        match try_parse(input) {
            Ok(bytes) => Ok(Uuid::from_bytes(bytes)),
            Err(_) => Err(Error(ErrorKind::Other)),
        }
    }

    /// Parses a UUID from a text in any of the four forms. A rejected input
    /// gives [`ErrorKind::Other`], without diagnosis.
    pub fn try_parse(input: &str) -> (r: Result<Uuid, Error>)
        ensures
            r matches Ok(u) ==> spec_try_parse(vstd::utf8::encode_utf8(input@)) == Some(u@),
            r matches Err(e) ==> spec_try_parse(vstd::utf8::encode_utf8(input@)) is None && e == Error(
                ErrorKind::Other,
            ),
    {
        Self::try_parse_ascii(input.as_bytes())
    }
}

/// The part of a text that parsing rejects is itself text: `parse_str` never
/// reports invalid UTF-8.
pub proof fn lemma_rejected_text_is_utf8(t: Seq<char>)
    ensures
        vstd::utf8::valid_utf8(rejected_part(vstd::utf8::encode_utf8(t))),
        spec_error_kind(rejected_part(vstd::utf8::encode_utf8(t))) != ErrorKind::InvalidUTF8,
{
    let b = vstd::utf8::encode_utf8(t);
    vstd::utf8::encode_utf8_valid_utf8(t);
    if b.len() == 32 || b.len() == 36 {
    } else if is_braced_shape(b) {
        vstd::utf8::is_char_boundary_iff_not_is_continuation_byte(b, 37);
        vstd::utf8::valid_utf8_split(b, 37);
        let front = b.subrange(0, 37);
        lemma_boundary_after_ascii(front, 1);
        vstd::utf8::valid_utf8_split(front, 1);
        assert(front.subrange(1, 37) =~= b.subrange(1, 37));
    } else if is_urn_shape(b) {
        assert forall|j: int| 0 <= j < 9 implies #[trigger] b[j] < 0x80 by {
            assert(b[j] == b.subrange(0, 9)[j]);
        }
        lemma_boundary_after_ascii(b, 9);
        vstd::utf8::valid_utf8_split(b, 9);
    }
    lemma_valid_text_error(rejected_part(b));
}

impl std::str::FromStr for Uuid {
    type Err = Error;

    /// What `parse_str` gives.
    fn from_str(uuid_str: &str) -> (r: Result<Uuid, Error>)
        ensures
            r matches Ok(u) ==> spec_try_parse(vstd::utf8::encode_utf8(uuid_str@)) == Some(u@),
            r matches Err(e) ==> spec_try_parse(vstd::utf8::encode_utf8(uuid_str@)) is None && e
                == Error(spec_error_kind(rejected_part(vstd::utf8::encode_utf8(uuid_str@)))),
    {
        Uuid::parse_str(uuid_str)
    }
}

impl<'a> std::convert::TryFrom<&'a str> for Uuid {
    type Error = Error;

    fn try_from(uuid_str: &'a str) -> (r: Result<Uuid, Error>) {
        let r = Uuid::parse_str(uuid_str);
        proof {
            if let Ok(u) = r {
                lemma_spec_uuid(u);
            }
        }
        r
    }
}

impl<'a> vstd::std_specs::convert::TryFromSpecImpl<&'a str> for Uuid {
    open spec fn obeys_try_from_spec() -> bool {
        true
    }

    /// What `parse_str` gives.
    open spec fn try_from_spec(uuid_str: &'a str) -> Result<Uuid, Error> {
        let b = vstd::utf8::encode_utf8(uuid_str@);
        match spec_try_parse(b) {
            Some(v) => Ok(spec_uuid(v)),
            None => Err(Error(spec_error_kind(rejected_part(b)))),
        }
    }
}

/// `TryFrom` accepts exactly the texts that `parse_str` accepts, gives the
/// UUID with the bytes they hold, and rejects the others with the diagnosis
/// that `parse_str` gives.
pub proof fn lemma_try_from_agrees(t: &str)
    ensures
        <Uuid as vstd::std_specs::convert::TryFromSpec<&str>>::try_from_spec(t) is Ok
            <==> spec_try_parse(vstd::utf8::encode_utf8(t@)) is Some,
        <Uuid as vstd::std_specs::convert::TryFromSpec<&str>>::try_from_spec(t) matches Ok(u)
            ==> spec_try_parse(vstd::utf8::encode_utf8(t@)) == Some(u@),
        <Uuid as vstd::std_specs::convert::TryFromSpec<&str>>::try_from_spec(t) matches Err(e)
            ==> e == Error(spec_error_kind(rejected_part(vstd::utf8::encode_utf8(t@)))),
{
    let b = vstd::utf8::encode_utf8(t@);
    if spec_try_parse(b) is Some {
        let v = spec_try_parse(b)->0;
        assert(v.len() == 16);
        lemma_spec_uuid_view(v);
    }
}

/// `TryFrom` reads any written form of a UUID back as that UUID.
pub proof fn lemma_try_from_written(t: &str, u: Uuid)
    requires
        ({
            let b = vstd::utf8::encode_utf8(t@);
            ||| b == spec_encode_simple(u@)
            ||| b == spec_encode_hyphenated(u@)
            ||| b == spec_encode_braced(u@)
            ||| b == spec_encode_urn(u@)
        }),
    ensures
        <Uuid as vstd::std_specs::convert::TryFromSpec<&str>>::try_from_spec(t) == Ok::<
            Uuid,
            Error,
        >(u),
{
    u.lemma_len();
    lemma_simple_roundtrip(u@);
    lemma_hyphenated_roundtrip(u@);
    lemma_braced_roundtrip(u@);
    lemma_urn_roundtrip(u@);
    lemma_spec_uuid(u);
}

} // verus!
