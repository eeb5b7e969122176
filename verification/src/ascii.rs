//! The ASCII bytes that the textual forms of a UUID are made of.
use vstd::prelude::*;

verus! {

/// `'0'`
pub const DIGIT_0: u8 = 0x30;

/// `'9'`
pub const DIGIT_9: u8 = 0x39;

/// `'a'`
pub const LOWER_A: u8 = 0x61;

/// `'f'`
pub const LOWER_F: u8 = 0x66;

/// `'A'`
pub const UPPER_A: u8 = 0x41;

/// `'F'`
pub const UPPER_F: u8 = 0x46;

/// `'-'`, which separates the groups of a hyphenated UUID.
pub const HYPHEN: u8 = 0x2d;

/// `'{'`, which opens a braced UUID.
pub const OPEN_BRACE: u8 = 0x7b;

/// `'}'`, which closes a braced UUID.
pub const CLOSE_BRACE: u8 = 0x7d;

/// `'u'`
pub const LOWER_U: u8 = 0x75;

/// `'r'`
pub const LOWER_R: u8 = 0x72;

/// `'n'`
pub const LOWER_N: u8 = 0x6e;

/// `'i'`
pub const LOWER_I: u8 = 0x69;

/// `'d'`
pub const LOWER_D: u8 = 0x64;

/// `':'`
pub const COLON: u8 = 0x3a;

/// The prefix `urn:uuid:` of a UUID written as a URN.
pub open spec fn urn_prefix() -> Seq<u8> {
    seq![LOWER_U, LOWER_R, LOWER_N, COLON, LOWER_U, LOWER_U, LOWER_I, LOWER_D, COLON]
}

/// Whether `s` starts with `urn:uuid:`.
pub fn has_urn_prefix(s: &[u8]) -> (r: bool)
    ensures
        r == (s@.len() >= 9 && s@.subrange(0, 9) == urn_prefix()),
{
    let r = s.len() >= 9 && s[0] == LOWER_U && s[1] == LOWER_R && s[2] == LOWER_N && s[3] == COLON
        && s[4] == LOWER_U && s[5] == LOWER_U && s[6] == LOWER_I && s[7] == LOWER_D && s[8] == COLON;
    if s.len() >= 9 {
        assert(r == (s@.subrange(0, 9) =~= urn_prefix()));
    }
    r
}

} // verus!
