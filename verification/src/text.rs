//! Bytes as UTF-8 text: reading them as text, and what ASCII bytes mean
//! there.
use vstd::prelude::*;
use vstd::utf8::{
    decode_first_scalar, decode_utf8, encode_utf8, is_char_boundary, is_leading_byte_width_1,
    valid_utf8,
};

verus! {

/// `std::str::from_utf8`: the bytes as text if they are valid UTF-8, `None`
/// otherwise. Trusted: `Some` exactly on valid UTF-8 (the definition of UTF-8
/// in vstd), and the text then encodes to exactly these bytes.
#[verifier::external_body]
pub(crate) fn text_from_utf8<'a>(v: &'a [u8]) -> (r: Option<&'a str>)
    ensures
        r is Some <==> valid_utf8(v@),
        r matches Some(t) ==> encode_utf8(t@) == v@,
{
    match std::str::from_utf8(v) {
        Ok(t) => Some(t),
        Err(_) => None,
    }
}

/// Every byte of `b` is ASCII.
pub open spec fn all_ascii(b: Seq<u8>) -> bool {
    forall|i: int| 0 <= i < b.len() ==> #[trigger] b[i] < 0x80
}

/// The character whose UTF-8 encoding starts at byte `p` of `s`.
pub open spec fn char_at_byte(s: Seq<u8>, p: int) -> char {
    decode_first_scalar(s.subrange(p, s.len() as int)) as char
}

/// ASCII bytes are valid UTF-8.
pub proof fn lemma_ascii_valid_utf8(b: Seq<u8>)
    requires
        all_ascii(b),
    ensures
        valid_utf8(b),
    decreases b.len(),
{
    if b.len() > 0 {
        let b0: u8 = b[0];
        assert(is_leading_byte_width_1(b0));
        assert((b0 & 0x7f) as u32 <= 0x7f) by (bit_vector);
        let rest = b.subrange(1, b.len() as int);
        assert(all_ascii(rest)) by {
            assert forall|i: int| 0 <= i < rest.len() implies #[trigger] rest[i] < 0x80 by {
                assert(rest[i] == b[i + 1]);
            }
        }
        lemma_ascii_valid_utf8(rest);
    }
}

/// In valid UTF-8 whose first `p` bytes are ASCII, the `p`-th character is
/// the one whose encoding starts at byte `p`.
pub proof fn lemma_char_after_ascii(b: Seq<u8>, p: int)
    requires
        valid_utf8(b),
        0 <= p < b.len(),
        forall|j: int| 0 <= j < p ==> #[trigger] b[j] < 0x80,
    ensures
        p < decode_utf8(b).len(),
        decode_utf8(b)[p] == char_at_byte(b, p),
    decreases p,
{
    if p == 0 {
        assert(b.subrange(0, b.len() as int) =~= b);
    } else {
        let b0: u8 = b[0];
        assert(b0 < 0x80);
        let rest = b.subrange(1, b.len() as int);
        assert(forall|j: int| 0 <= j < p - 1 ==> #[trigger] rest[j] == b[j + 1]);
        lemma_char_after_ascii(rest, p - 1);
        assert(rest.subrange(p - 1, rest.len() as int) =~= b.subrange(p, b.len() as int));
    }
}

/// In valid UTF-8, a position after ASCII bytes alone starts a character.
pub proof fn lemma_boundary_after_ascii(b: Seq<u8>, k: int)
    requires
        valid_utf8(b),
        0 <= k <= b.len(),
        forall|j: int| 0 <= j < k ==> #[trigger] b[j] < 0x80,
    ensures
        is_char_boundary(b, k),
    decreases k,
{
    if k > 0 {
        let rest = b.subrange(1, b.len() as int);
        assert(forall|j: int| 0 <= j < k - 1 ==> #[trigger] rest[j] == b[j + 1]);
        lemma_boundary_after_ascii(rest, k - 1);
    }
}

/// Text read from valid UTF-8 is the decoding of those bytes.
pub proof fn lemma_text_is_decoding(t: Seq<char>, b: Seq<u8>)
    requires
        encode_utf8(t) == b,
    ensures
        decode_utf8(b) == t,
{
    vstd::utf8::encode_utf8_decode_utf8(t);
}

/// The text made of the given ASCII bytes.
pub(crate) fn ascii_string(bytes: &[u8]) -> (r: String)
    requires
        all_ascii(bytes@),
    ensures
        encode_utf8(r@) == bytes@,
{
    proof {
        lemma_ascii_valid_utf8(bytes@);
    }
    match text_from_utf8(bytes) {
        Some(t) => t.to_owned(),
        None => {
            proof {
                assert(false);
            }
            String::new()
        },
    }
}

} // verus!
