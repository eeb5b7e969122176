//! How parsing and writing undo each other, and how the forms relate.
use vstd::prelude::*;
use crate::ascii::{CLOSE_BRACE, HYPHEN, OPEN_BRACE, urn_prefix};
use crate::fmt::{
    digit_index, spec_encode_braced, spec_encode_hyphenated, spec_encode_simple, spec_encode_urn,
};
use crate::hex::{
    is_hex_digit, lemma_hex_digit_rewritten, lemma_hex_pair_nibbles,
    lemma_digit_case, lemma_hex_pair_of_byte, lemma_lower_hex_digit, lower_case_digit,
    upper_case_digit,
};
use crate::parser::{
    all_hex, decode_hex, digit_pos, hyphenated_digits, is_braced_shape, is_urn_shape,
    spec_parse_braced, spec_parse_hyphenated, spec_parse_simple, spec_parse_urn, spec_try_parse,
};

verus! {

/// The digits of the simple form are hexadecimal digits, and read back as
/// the bytes they were written from.
proof fn lemma_simple_digits(v: Seq<u8>)
    requires
        v.len() == 16,
    ensures
        all_hex(spec_encode_simple(v)),
        decode_hex(spec_encode_simple(v)) == v,
{
    let e = spec_encode_simple(v);
    assert forall|k: int| 0 <= k < e.len() implies #[trigger] is_hex_digit(e[k]) by {
        lemma_lower_hex_digit((v[k / 2] / 16) as int);
        lemma_lower_hex_digit((v[k / 2] % 16) as int);
    }
    assert forall|i: int| 0 <= i < 16 implies #[trigger] decode_hex(e)[i] == v[i] by {
        assert((2 * i) / 2 == i && (2 * i + 1) / 2 == i);
        assert((2 * i) % 2 == 0 && (2 * i + 1) % 2 == 1);
        lemma_hex_pair_of_byte(v[i]);
    }
    assert(decode_hex(e) =~= v);
}

/// The hyphenated form without its hyphens is the simple form.
proof fn lemma_hyphenated_digits(v: Seq<u8>)
    requires
        v.len() == 16,
    ensures
        hyphenated_digits(spec_encode_hyphenated(v)) == spec_encode_simple(v),
{
    assert(hyphenated_digits(spec_encode_hyphenated(v)) =~= spec_encode_simple(v));
}

/// Reading the simple form of a UUID gives the UUID.
pub proof fn lemma_simple_roundtrip(v: Seq<u8>)
    requires
        v.len() == 16,
    ensures
        spec_parse_simple(spec_encode_simple(v)) == Some(v),
        spec_try_parse(spec_encode_simple(v)) == Some(v),
{
    lemma_simple_digits(v);
}

/// Reading the hyphenated form of a UUID gives the UUID.
pub proof fn lemma_hyphenated_roundtrip(v: Seq<u8>)
    requires
        v.len() == 16,
    ensures
        spec_parse_hyphenated(spec_encode_hyphenated(v)) == Some(v),
        spec_try_parse(spec_encode_hyphenated(v)) == Some(v),
{
    lemma_simple_digits(v);
    lemma_hyphenated_digits(v);
}

/// Reading the URN form of a UUID gives the UUID.
pub proof fn lemma_urn_roundtrip(v: Seq<u8>)
    requires
        v.len() == 16,
    ensures
        spec_parse_urn(spec_encode_urn(v)) == Some(v),
        spec_try_parse(spec_encode_urn(v)) == Some(v),
{
    lemma_hyphenated_roundtrip(v);
    let s = spec_encode_urn(v);
    assert(s.subrange(0, 9) =~= urn_prefix());
    assert(s.subrange(9, 45) =~= spec_encode_hyphenated(v));
    assert(s[0] != OPEN_BRACE);
}

/// Reading the braced form of a UUID gives the UUID.
pub proof fn lemma_braced_roundtrip(v: Seq<u8>)
    requires
        v.len() == 16,
    ensures
        spec_parse_braced(spec_encode_braced(v)) == Some(v),
        spec_try_parse(spec_encode_braced(v)) == Some(v),
{
    lemma_hyphenated_roundtrip(v);
    let s = spec_encode_braced(v);
    assert(s.subrange(1, 37) =~= spec_encode_hyphenated(v));
}

/// `s` with its hexadecimal letters in lower case.
pub open spec fn lower_case(s: Seq<u8>) -> Seq<u8> {
    s.map_values(|b: u8| lower_case_digit(b))
}

/// Writing what was read from a simple UUID gives that text in lower case.
pub proof fn lemma_simple_rewritten(s: Seq<u8>)
    requires
        spec_parse_simple(s) is Some,
    ensures
        spec_encode_simple(spec_parse_simple(s)->0) == lower_case(s),
{
    let v = decode_hex(s);
    assert forall|k: int| 0 <= k < 32 implies #[trigger] spec_encode_simple(v)[k] == lower_case(
        s,
    )[k] by {
        let i: int = k / 2;
        assert(0 <= i < 16);
        assert(is_hex_digit(s[2 * i]) && is_hex_digit(s[2 * i + 1]));
        lemma_hex_pair_nibbles(s[2 * i], s[2 * i + 1]);
        lemma_hex_digit_rewritten(s[k]);
        if k % 2 == 0 {
            assert(k == 2 * i);
        } else {
            assert(k == 2 * i + 1);
        }
    }
    assert(spec_encode_simple(v) =~= lower_case(s));
}

/// Writing what was read from a hyphenated UUID gives that text in lower
/// case.
pub proof fn lemma_hyphenated_rewritten(s: Seq<u8>)
    requires
        spec_parse_hyphenated(s) is Some,
    ensures
        spec_encode_hyphenated(spec_parse_hyphenated(s)->0) == lower_case(s),
{
    let d = hyphenated_digits(s);
    assert(spec_parse_simple(d) == spec_parse_hyphenated(s));
    lemma_simple_rewritten(d);
    let v = decode_hex(d);
    assert forall|i: int| 0 <= i < 36 implies #[trigger] spec_encode_hyphenated(v)[i] == lower_case(
        s,
    )[i] by {
        if !(i == 8 || i == 13 || i == 18 || i == 23) {
            let k: int = digit_index(i);
            assert(digit_pos(k) == i);
            assert(spec_encode_simple(v)[k] == lower_case(d)[k]);
        }
    }
    assert(spec_encode_hyphenated(v) =~= lower_case(s));
}

/// A hyphenated UUID holds what its digits, read as a simple UUID, hold.
pub proof fn lemma_hyphenated_as_simple(s: Seq<u8>)
    requires
        s.len() == 36,
        s[8] == HYPHEN,
        s[13] == HYPHEN,
        s[18] == HYPHEN,
        s[23] == HYPHEN,
    ensures
        spec_parse_hyphenated(s) == spec_parse_simple(hyphenated_digits(s)),
{
}

/// Braces around a hyphenated UUID, or the URN prefix before it, change
/// nothing of what it holds.
pub proof fn lemma_wrapped_as_hyphenated(s: Seq<u8>)
    requires
        s.len() == 36,
    ensures
        spec_try_parse(seq![OPEN_BRACE] + s + seq![CLOSE_BRACE]) == spec_try_parse(s),
        spec_try_parse(urn_prefix() + s) == spec_try_parse(s),
{
    let b = seq![OPEN_BRACE] + s + seq![CLOSE_BRACE];
    assert(b.subrange(1, 37) =~= s);
    let u = urn_prefix() + s;
    assert(u.subrange(0, 9) =~= urn_prefix());
    assert(u.subrange(9, 45) =~= s);
}

/// `s` with its hexadecimal letters in upper case.
pub open spec fn upper_case(s: Seq<u8>) -> Seq<u8> {
    s.map_values(|b: u8| upper_case_digit(b))
}

/// Case does not matter to a simple UUID.
pub proof fn lemma_simple_case(s: Seq<u8>)
    ensures
        spec_parse_simple(upper_case(s)) == spec_parse_simple(s),
        spec_parse_simple(lower_case(s)) == spec_parse_simple(s),
{
    assert forall|k: int| 0 <= k < s.len() implies is_hex_digit(#[trigger] upper_case(s)[k])
        == is_hex_digit(s[k]) && is_hex_digit(lower_case(s)[k]) == is_hex_digit(s[k]) by {
        lemma_digit_case(s[k]);
    }
    if s.len() == 32 && all_hex(s) {
        assert forall|i: int| 0 <= i < 16 implies #[trigger] decode_hex(upper_case(s))[i]
            == decode_hex(s)[i] && decode_hex(lower_case(s))[i] == decode_hex(s)[i] by {
            lemma_digit_case(s[2 * i]);
            lemma_digit_case(s[2 * i + 1]);
        }
        assert(decode_hex(upper_case(s)) =~= decode_hex(s));
        assert(decode_hex(lower_case(s)) =~= decode_hex(s));
    }
    if !all_hex(s) {
        let k = choose|k: int| 0 <= k < s.len() && !is_hex_digit(#[trigger] s[k]);
        assert(!is_hex_digit(upper_case(s)[k]));
        assert(!is_hex_digit(lower_case(s)[k]));
    }
}

/// Case does not matter to a hyphenated UUID.
pub proof fn lemma_hyphenated_case(s: Seq<u8>)
    ensures
        spec_parse_hyphenated(upper_case(s)) == spec_parse_hyphenated(s),
        spec_parse_hyphenated(lower_case(s)) == spec_parse_hyphenated(s),
{
    if s.len() == 36 {
        lemma_digit_case(s[8]);
        lemma_digit_case(s[13]);
        lemma_digit_case(s[18]);
        lemma_digit_case(s[23]);
        let d = hyphenated_digits(s);
        assert(hyphenated_digits(upper_case(s)) =~= upper_case(d));
        assert(hyphenated_digits(lower_case(s)) =~= lower_case(d));
        lemma_simple_case(d);
        assert(spec_parse_simple(d) == (if all_hex(d) { Some(decode_hex(d)) } else { None }));
    }
}

/// Braces around a hyphenated UUID, or the URN prefix before it, change
/// nothing of what the braced and URN parsers read from it.
pub proof fn lemma_wrapped_parsers(s: Seq<u8>)
    requires
        s.len() == 36,
    ensures
        spec_parse_braced(seq![OPEN_BRACE] + s + seq![CLOSE_BRACE]) == spec_parse_hyphenated(s),
        spec_parse_urn(urn_prefix() + s) == spec_parse_hyphenated(s),
{
    let b = seq![OPEN_BRACE] + s + seq![CLOSE_BRACE];
    assert(b.subrange(1, 37) =~= s);
    let u = urn_prefix() + s;
    assert(u.subrange(0, 9) =~= urn_prefix());
    assert(u.subrange(9, 45) =~= s);
}

/// A UUID written with upper-case letters reads back as that UUID, in each
/// of the four forms.
pub proof fn lemma_upper_case_roundtrip(v: Seq<u8>)
    requires
        v.len() == 16,
    ensures
        spec_try_parse(upper_case(spec_encode_simple(v))) == Some(v),
        spec_try_parse(upper_case(spec_encode_hyphenated(v))) == Some(v),
        spec_parse_braced(seq![OPEN_BRACE] + upper_case(spec_encode_hyphenated(v)) + seq![
            CLOSE_BRACE,
        ]) == Some(v),
        spec_parse_urn(urn_prefix() + upper_case(spec_encode_hyphenated(v))) == Some(v),
        spec_try_parse(seq![OPEN_BRACE] + upper_case(spec_encode_hyphenated(v)) + seq![
            CLOSE_BRACE,
        ]) == Some(v),
        spec_try_parse(urn_prefix() + upper_case(spec_encode_hyphenated(v))) == Some(v),
{
    lemma_simple_roundtrip(v);
    lemma_hyphenated_roundtrip(v);
    lemma_simple_case(spec_encode_simple(v));
    let h = spec_encode_hyphenated(v);
    lemma_hyphenated_case(h);
    let uh = upper_case(h);
    lemma_wrapped_parsers(uh);
    lemma_wrapped_as_hyphenated(uh);
}

/// Every text that parses is, up to the case of its letters, one of the four
/// written forms of what it holds; so its length is 32 or 36, or it is 38
/// bytes in braces, or 45 bytes after `urn:uuid:`.
pub proof fn lemma_accepted_forms(s: Seq<u8>)
    ensures
        spec_try_parse(s) matches Some(v) ==> {
            ||| lower_case(s) == spec_encode_simple(v)
            ||| lower_case(s) == spec_encode_hyphenated(v)
            ||| lower_case(s) == spec_encode_braced(v)
            ||| lower_case(s) == spec_encode_urn(v)
        },
        spec_try_parse(s) is Some ==> {
            ||| s.len() == 32
            ||| s.len() == 36
            ||| (s.len() == 38 && s[0] == 0x7b && s[37] == 0x7d)
            ||| (s.len() == 45 && s.subrange(0, 9) == urn_prefix())
        },
{
    if spec_try_parse(s) is Some {
        let v = spec_try_parse(s)->0;
        if s.len() == 32 {
            lemma_simple_rewritten(s);
        } else if s.len() == 36 {
            lemma_hyphenated_rewritten(s);
        } else if is_braced_shape(s) {
            let inner = s.subrange(1, 37);
            lemma_hyphenated_rewritten(inner);
            assert(lower_case(s) =~= seq![OPEN_BRACE] + lower_case(inner) + seq![CLOSE_BRACE]);
        } else {
            assert(is_urn_shape(s));
            let inner = s.subrange(9, 45);
            lemma_hyphenated_rewritten(inner);
            assert(lower_case(s).subrange(0, 9) =~= s.subrange(0, 9));
            assert(lower_case(s) =~= urn_prefix() + lower_case(inner));
        }
    }
}

} // verus!
