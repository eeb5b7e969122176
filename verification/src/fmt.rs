//! The four textual forms of a UUID, all with lower-case digits: simple (32
//! digits), hyphenated (`8-4-4-4-12` digits), URN (`urn:uuid:` hyphenated)
//! and braced (`{` hyphenated `}`).
use vstd::prelude::*;
use crate::ascii::{CLOSE_BRACE, HYPHEN, OPEN_BRACE, urn_prefix};
use crate::hex::{lemma_lower_hex_digit, lower_hex_char, lower_hex_digit};
use crate::parser::is_hyphen_pos;
use crate::text::{all_ascii, ascii_string};
use crate::uuid::Uuid;

verus! {

/// The simple form: two lower-case digits a byte, high nibble first.
pub open spec fn spec_encode_simple(v: Seq<u8>) -> Seq<u8> {
    Seq::new(
        32,
        |k: int|
            if k % 2 == 0 {
                lower_hex_digit((v[k / 2] / 16) as int)
            } else {
                lower_hex_digit((v[k / 2] % 16) as int)
            },
    )
}

/// Which digit of the simple form stands at position `i` of the hyphenated
/// form (for a position that holds no hyphen).
pub open spec fn digit_index(i: int) -> int {
    if i < 8 {
        i
    } else if i < 13 {
        i - 1
    } else if i < 18 {
        i - 2
    } else if i < 23 {
        i - 3
    } else {
        i - 4
    }
}

/// The hyphenated form: the digits of the simple form in groups of 8, 4, 4,
/// 4 and 12, joined by hyphens.
pub open spec fn spec_encode_hyphenated(v: Seq<u8>) -> Seq<u8> {
    Seq::new(
        36,
        |i: int|
            if is_hyphen_pos(i) {
                HYPHEN
            } else {
                spec_encode_simple(v)[digit_index(i)]
            },
    )
}

/// The URN form: `urn:uuid:` and the hyphenated form.
pub open spec fn spec_encode_urn(v: Seq<u8>) -> Seq<u8> {
    urn_prefix() + spec_encode_hyphenated(v)
}

/// The braced form: the hyphenated form in braces.
pub open spec fn spec_encode_braced(v: Seq<u8>) -> Seq<u8> {
    seq![OPEN_BRACE] + spec_encode_hyphenated(v) + seq![CLOSE_BRACE]
}

/// The simple form of the given bytes.
fn encode_simple(v: &[u8; 16]) -> (r: Vec<u8>)
    ensures
        r@ == spec_encode_simple(v@),
        all_ascii(r@),
{
    let mut r: Vec<u8> = Vec::new();
    let mut i: usize = 0;
    while i < 16
        invariant
            0 <= i <= 16,
            r@.len() == 2 * i,
            forall|k: int| 0 <= k < 2 * i ==> r@[k] == #[trigger] spec_encode_simple(v@)[k],
            all_ascii(r@),
        decreases 16 - i,
    {
        let b: u8 = v[i];
        proof {
            lemma_lower_hex_digit((b / 16) as int);
            lemma_lower_hex_digit((b % 16) as int);
        }
        r.push(lower_hex_char(b / 16));
        r.push(lower_hex_char(b % 16));
        i += 1;
    }
    assert(r@ =~= spec_encode_simple(v@));
    r
}

/// The position in the simple form of the digit at position `i` of the
/// hyphenated form.
fn digit_index_of(i: usize) -> (k: usize)
    requires
        i < 36,
        !is_hyphen_pos(i as int),
    ensures
        k == digit_index(i as int),
        k < 32,
{
    if i < 8 {
        i
    } else if i < 13 {
        i - 1
    } else if i < 18 {
        i - 2
    } else if i < 23 {
        i - 3
    } else {
        i - 4
    }
}

/// The hyphenated form of the given bytes.
fn encode_hyphenated(v: &[u8; 16]) -> (r: Vec<u8>)
    ensures
        r@ == spec_encode_hyphenated(v@),
        all_ascii(r@),
{
    let simple = encode_simple(v);
    let mut r: Vec<u8> = Vec::new();
    let mut i: usize = 0;
    while i < 36
        invariant
            0 <= i <= 36,
            simple@ == spec_encode_simple(v@),
            all_ascii(simple@),
            r@.len() == i,
            forall|k: int| 0 <= k < i ==> r@[k] == #[trigger] spec_encode_hyphenated(v@)[k],
            all_ascii(r@),
        decreases 36 - i,
    {
        if i == 8 || i == 13 || i == 18 || i == 23 {
            r.push(HYPHEN);
        } else {
            let k: usize = digit_index_of(i);
            r.push(simple[k]);
        }
        i += 1;
    }
    assert(r@ =~= spec_encode_hyphenated(v@));
    r
}

/// A UUID to be written in the simple form.
#[derive(Clone, Copy, Debug, PartialEq, Eq, Hash)]
pub struct Simple(Uuid);

/// A UUID to be written in the hyphenated form.
#[derive(Clone, Copy, Debug, PartialEq, Eq, Hash)]
pub struct Hyphenated(Uuid);

/// A UUID to be written as a URN.
#[derive(Clone, Copy, Debug, PartialEq, Eq, Hash)]
pub struct Urn(Uuid);

/// A UUID to be written in braces.
#[derive(Clone, Copy, Debug, PartialEq, Eq, Hash)]
pub struct Braced(Uuid);

impl View for Simple {
    type V = Seq<u8>;

    /// The bytes of the UUID.
    closed spec fn view(&self) -> Seq<u8> {
        self.0@
    }
}

impl View for Hyphenated {
    type V = Seq<u8>;

    /// The bytes of the UUID.
    closed spec fn view(&self) -> Seq<u8> {
        self.0@
    }
}

impl View for Urn {
    type V = Seq<u8>;

    /// The bytes of the UUID.
    closed spec fn view(&self) -> Seq<u8> {
        self.0@
    }
}

impl View for Braced {
    type V = Seq<u8>;

    /// The bytes of the UUID.
    closed spec fn view(&self) -> Seq<u8> {
        self.0@
    }
}

impl Simple {
    /// The simple form of the UUID.
    pub fn to_string(&self) -> (r: String)
        ensures
            vstd::utf8::encode_utf8(r@) == spec_encode_simple(self@),
    {
        let bytes = encode_simple(self.0.as_bytes());
        ascii_string(bytes.as_slice())
    }
}

impl Hyphenated {
    /// The hyphenated form of the UUID.
    pub fn to_string(&self) -> (r: String)
        ensures
            vstd::utf8::encode_utf8(r@) == spec_encode_hyphenated(self@),
    {
        let bytes = encode_hyphenated(self.0.as_bytes());
        ascii_string(bytes.as_slice())
    }
}

impl Urn {
    /// The URN form of the UUID.
    pub fn to_string(&self) -> (r: String)
        ensures
            vstd::utf8::encode_utf8(r@) == spec_encode_urn(self@),
    {
        let mut bytes: Vec<u8> = Vec::new();
        bytes.push(crate::ascii::LOWER_U);
        bytes.push(crate::ascii::LOWER_R);
        bytes.push(crate::ascii::LOWER_N);
        bytes.push(crate::ascii::COLON);
        bytes.push(crate::ascii::LOWER_U);
        bytes.push(crate::ascii::LOWER_U);
        bytes.push(crate::ascii::LOWER_I);
        bytes.push(crate::ascii::LOWER_D);
        bytes.push(crate::ascii::COLON);
        assert(bytes@ =~= urn_prefix());
        let mut hyphenated = encode_hyphenated(self.0.as_bytes());
        bytes.append(&mut hyphenated);
        assert(all_ascii(bytes@)) by {
            assert forall|i: int| 0 <= i < bytes@.len() implies #[trigger] bytes@[i] < 0x80 by {
                if i >= 9 {
                    assert(bytes@[i] == spec_encode_hyphenated(self@)[i - 9]);
                }
            }
        }
        ascii_string(bytes.as_slice())
    }
}

impl Braced {
    /// The braced form of the UUID.
    pub fn to_string(&self) -> (r: String)
        ensures
            vstd::utf8::encode_utf8(r@) == spec_encode_braced(self@),
    {
        let mut bytes: Vec<u8> = Vec::new();
        bytes.push(OPEN_BRACE);
        let mut hyphenated = encode_hyphenated(self.0.as_bytes());
        bytes.append(&mut hyphenated);
        bytes.push(CLOSE_BRACE);
        assert(bytes@ =~= spec_encode_braced(self@));
        assert(all_ascii(bytes@)) by {
            assert forall|i: int| 0 <= i < bytes@.len() implies #[trigger] bytes@[i] < 0x80 by {
                if 1 <= i < 37 {
                    assert(bytes@[i] == spec_encode_hyphenated(self@)[i - 1]);
                }
            }
        }
        ascii_string(bytes.as_slice())
    }
}

impl Uuid {
    /// The UUID, to be written in the simple form.
    pub fn simple(self) -> (r: Simple)
        ensures
            r@ == self@,
    {
        Simple(self)
    }

    /// The UUID, to be written in the hyphenated form.
    pub fn hyphenated(self) -> (r: Hyphenated)
        ensures
            r@ == self@,
    {
        Hyphenated(self)
    }

    /// The UUID, to be written as a URN.
    pub fn urn(self) -> (r: Urn)
        ensures
            r@ == self@,
    {
        Urn(self)
    }

    /// The UUID, to be written in braces.
    pub fn braced(self) -> (r: Braced)
        ensures
            r@ == self@,
    {
        Braced(self)
    }

    /// The UUID in its usual written form, the hyphenated one.
    pub fn to_string(&self) -> (r: String)
        ensures
            vstd::utf8::encode_utf8(r@) == spec_encode_hyphenated(self@),
    {
        self.hyphenated().to_string()
    }
}

} // verus!
