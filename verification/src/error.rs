//! The errors of parsing, and the diagnosis of a rejected input.
use vstd::prelude::*;
use vstd::string::StrSliceExecFns;
use vstd::utf8::valid_utf8;
use crate::ascii::{CLOSE_BRACE, HYPHEN, OPEN_BRACE, has_urn_prefix, urn_prefix};
use crate::hex::{hex_value, is_hex_digit};
use crate::text::{char_at_byte, lemma_char_after_ascii, lemma_text_is_decoding, text_from_utf8};

verus! {

/// A UUID could not be parsed from the given text.
#[derive(Clone, Debug, PartialEq, Eq, Hash)]
pub struct Error(pub ErrorKind);

/// What was wrong with a text that is no UUID.
#[derive(Clone, Debug, PartialEq, Eq, Hash)]
pub enum ErrorKind {
    /// A character that is neither a hexadecimal digit nor a hyphen, at a
    /// position counted in bytes from 1.
    Char { character: char, index: usize },
    /// A text without hyphens whose length is not that of a simple UUID.
    SimpleLength { len: usize },
    /// A text with hyphens that does not have five groups.
    GroupCount { count: usize },
    /// A text with five groups, one of which has the wrong length.
    GroupLength { group: usize, len: usize, index: usize },
    /// The bytes are no UTF-8 text.
    InvalidUTF8,
    /// The text is no UUID; nothing more is said.
    Other,
}

/// The part of an input that parsing rejected. It can be turned into a
/// detailed [`Error`] on demand.
#[derive(Clone, Copy, Debug)]
pub struct InvalidUuid<'a>(pub &'a [u8]);

/// A byte that can stand in the text of a UUID: a hexadecimal digit or a
/// hyphen.
pub open spec fn is_uuid_byte(b: u8) -> bool {
    is_hex_digit(b) || b == HYPHEN
}

/// `s` is wrapped in braces.
pub open spec fn is_braced(s: Seq<u8>) -> bool {
    s.len() >= 2 && s[0] == OPEN_BRACE && s[s.len() - 1] == CLOSE_BRACE
}

/// `s` starts with the URN prefix.
pub open spec fn is_urn(s: Seq<u8>) -> bool {
    s.len() >= 9 && s.subrange(0, 9) == urn_prefix()
}

/// Where the body of a text starts, after its braces or URN prefix.
pub open spec fn body_start(s: Seq<u8>) -> int {
    if is_braced(s) {
        1
    } else if is_urn(s) {
        9
    } else {
        0
    }
}

/// Where the body of a text ends, before its closing brace.
pub open spec fn body_end(s: Seq<u8>) -> int {
    if is_braced(s) {
        s.len() - 1
    } else {
        s.len() as int
    }
}

/// The first position in `i..end` that holds no UUID byte, or `end`.
pub open spec fn first_non_uuid_byte(s: Seq<u8>, i: int, end: int) -> int
    decreases end - i,
{
    if i >= end {
        end
    } else if !is_uuid_byte(s[i]) {
        i
    } else {
        first_non_uuid_byte(s, i + 1, end)
    }
}

/// The positions of the hyphens in `u`, in order.
pub open spec fn hyphen_positions(u: Seq<u8>) -> Seq<int>
    decreases u.len(),
{
    if u.len() == 0 {
        seq![]
    } else if u.last() == HYPHEN {
        hyphen_positions(u.drop_last()).push(u.len() - 1)
    } else {
        hyphen_positions(u.drop_last())
    }
}

/// Where group `g` of a hyphenated UUID starts.
pub open spec fn group_start(g: int) -> int {
    if g <= 0 {
        0
    } else if g == 1 {
        9
    } else if g == 2 {
        14
    } else if g == 3 {
        19
    } else {
        24
    }
}

/// The error for a body with five groups, found from group `g` on: the
/// first group whose closing hyphen is misplaced, else the last group.
pub open spec fn group_length_error(h: Seq<int>, offset: int, total: int, g: int) -> ErrorKind
    decreases 4 - g,
{
    if g >= 4 {
        ErrorKind::GroupLength {
            group: 4,
            len: (total - group_start(4)) as usize,
            index: (offset + group_start(4) + 1) as usize,
        }
    } else if h[g] != group_start(g + 1) - 1 {
        ErrorKind::GroupLength {
            group: g as usize,
            len: (h[g] - group_start(g)) as usize,
            index: (offset + group_start(g) + 1) as usize,
        }
    } else {
        group_length_error(h, offset, total, g + 1)
    }
}

/// The diagnosis of a text that is no UUID. Bytes that are no UTF-8 are
/// reported as such. Else the body (inside braces or after `urn:uuid:`) is
/// read: the first character in it that is neither a hexadecimal digit nor a
/// hyphen is reported; a body of digits alone, unwrapped, has the wrong
/// length; a body with other than four hyphens has the wrong number of
/// groups; else the first group of wrong length is reported.
pub open spec fn spec_error_kind(s: Seq<u8>) -> ErrorKind {
    if !valid_utf8(s) {
        ErrorKind::InvalidUTF8
    } else {
        let start: int = body_start(s);
        let end: int = body_end(s);
        let bad: int = first_non_uuid_byte(s, start, end);
        if bad < end {
            ErrorKind::Char { character: char_at_byte(s, bad), index: (bad + 1) as usize }
        } else {
            let h = hyphen_positions(s.subrange(start, end));
            if h.len() == 0 && start == 0 {
                ErrorKind::SimpleLength { len: s.len() as usize }
            } else if h.len() != 4 {
                ErrorKind::GroupCount { count: (h.len() + 1) as usize }
            } else {
                group_length_error(h, start, s.len() as int, 0)
            }
        }
    }
}

/// The hyphen positions of `u` lie in `u`, hold hyphens, and ascend.
pub proof fn lemma_hyphen_positions(u: Seq<u8>)
    ensures
        hyphen_positions(u).len() <= u.len(),
        forall|k: int|
            0 <= k < hyphen_positions(u).len() ==> 0 <= #[trigger] hyphen_positions(u)[k] < u.len()
                && u[hyphen_positions(u)[k]] == HYPHEN,
        forall|k1: int, k2: int|
            0 <= k1 < k2 < hyphen_positions(u).len() ==> hyphen_positions(u)[k1]
                < hyphen_positions(u)[k2],
    decreases u.len(),
{
    if u.len() > 0 {
        lemma_hyphen_positions(u.drop_last());
    }
}

/// Valid UTF-8 is never reported as invalid UTF-8.
pub proof fn lemma_valid_text_error(s: Seq<u8>)
    requires
        valid_utf8(s),
    ensures
        spec_error_kind(s) != ErrorKind::InvalidUTF8,
{
    let start: int = body_start(s);
    let h = hyphen_positions(s.subrange(start, body_end(s)));
    lemma_group_length_error_kind(h, start, s.len() as int, 0);
}

/// A body with five groups is reported by the length of one group.
proof fn lemma_group_length_error_kind(h: Seq<int>, offset: int, total: int, g: int)
    ensures
        group_length_error(h, offset, total, g) is GroupLength,
    decreases 4 - g,
{
    if g < 4 && h[g] == group_start(g + 1) - 1 {
        lemma_group_length_error_kind(h, offset, total, g + 1);
    }
}

/// Where the first non-UUID byte is found.
proof fn lemma_first_non_uuid_byte(s: Seq<u8>, i: int, end: int)
    requires
        0 <= i <= end <= s.len(),
    ensures
        i <= first_non_uuid_byte(s, i, end) <= end,
        forall|j: int| i <= j < first_non_uuid_byte(s, i, end) ==> is_uuid_byte(#[trigger] s[j]),
        first_non_uuid_byte(s, i, end) < end ==> !is_uuid_byte(
            s[first_non_uuid_byte(s, i, end)],
        ),
    decreases end - i,
{
    if i < end && is_uuid_byte(s[i]) {
        lemma_first_non_uuid_byte(s, i + 1, end);
    }
}

/// The block start of group `g`.
fn block_start(g: usize) -> (r: usize)
    requires
        g <= 4,
    ensures
        r == group_start(g as int),
{
    if g == 0 {
        0
    } else if g == 1 {
        9
    } else if g == 2 {
        14
    } else if g == 3 {
        19
    } else {
        24
    }
}

impl<'a> InvalidUuid<'a> {
    /// Diagnoses the rejected text in detail (see [`spec_error_kind`]).
    pub fn into_err(self) -> (e: Error)
        ensures
            e == Error(spec_error_kind(self.0@)),
    {
        let input = self.0;
        let text = match text_from_utf8(input) {
            Some(t) => t,
            None => return Error(ErrorKind::InvalidUTF8),
        };
        let len: usize = input.len();
        let (start, end): (usize, usize) = if len >= 2 && input[0] == OPEN_BRACE && input[len - 1] == CLOSE_BRACE {
            (1, len - 1)
        } else if has_urn_prefix(input) {
            (9, len)
        } else {
            (0, len)
        };
        let ghost s = input@;
        assert(start == body_start(s) && end == body_end(s));
        // The bytes before the body are braces or the URN prefix: ASCII.
        assert forall|j: int| 0 <= j < start implies #[trigger] s[j] < 0x80 by {
            if start == 9 {
                assert(s[j] == s.subrange(0, 9)[j]);
            }
        }
        let mut hyphen_count: usize = 0;
        let mut group_bounds: [usize; 4] = [0usize; 4];
        let mut i: usize = start;
        while i < end
            invariant
                s == input@,
                s == self.0@,
                valid_utf8(s),
                vstd::utf8::encode_utf8(text@) == s,
                start == body_start(s),
                end == body_end(s),
                0 <= start <= i <= end <= len == s.len(),
                forall|j: int| 0 <= j < start ==> #[trigger] s[j] < 0x80,
                forall|j: int| start <= j < i ==> is_uuid_byte(#[trigger] s[j]),
                first_non_uuid_byte(s, start as int, end as int) == first_non_uuid_byte(
                    s,
                    i as int,
                    end as int,
                ),
                hyphen_count == hyphen_positions(s.subrange(start as int, i as int)).len(),
                hyphen_count <= i - start,
                forall|k: int|
                    0 <= k < hyphen_count && k < 4 ==> group_bounds@[k] == #[trigger] hyphen_positions(
                        s.subrange(start as int, i as int),
                    )[k],
            decreases end - i,
        {
            let byte: u8 = input[i];
            let ghost before = s.subrange(start as int, i as int);
            let ghost after = s.subrange(start as int, i + 1);
            assert(after.drop_last() =~= before);
            if byte == HYPHEN {
                if hyphen_count < 4 {
                    group_bounds[hyphen_count] = i - start;
                }
                hyphen_count += 1;
            } else if hex_value(byte) == 0xff {
                proof {
                    assert forall|j: int| 0 <= j < i implies #[trigger] s[j] < 0x80 by {
                        if j >= start {
                            assert(is_uuid_byte(s[j]));
                        }
                    }
                    lemma_text_is_decoding(text@, s);
                    lemma_char_after_ascii(s, i as int);
                }
                let character = text.get_char(i);
                assert(!is_uuid_byte(s[i as int]));
                assert(first_non_uuid_byte(s, i as int, end as int) == i);
                assert(character == char_at_byte(s, i as int));
                return Error(ErrorKind::Char { character, index: i + 1 });
            }
            i += 1;
        }
        let ghost u = s.subrange(start as int, end as int);
        let ghost h = hyphen_positions(u);
        proof {
            lemma_first_non_uuid_byte(s, end as int, end as int);
            lemma_hyphen_positions(u);
        }
        if hyphen_count == 0 && start == 0 {
            return Error(ErrorKind::SimpleLength { len });
        }
        assert(s.subrange(start as int, i as int) == u);
        if hyphen_count != 4 {
            assert((hyphen_count + 1) as usize == 0usize || (hyphen_count + 1) as usize
                == hyphen_count + 1) by (bit_vector);
            // A slice never holds `usize::MAX` bytes, so this never wraps;
            // written so, it asks nothing of the input's length.
            return Error(ErrorKind::GroupCount { count: hyphen_count.wrapping_add(1) });
        }
        assert(spec_error_kind(s) == group_length_error(h, start as int, len as int, 0));
        let mut g: usize = 0;
        while g < 4
            invariant
                s == self.0@,
                spec_error_kind(s) == group_length_error(h, start as int, len as int, 0),
                h.len() == 4,
                u.len() == end - start,
                end <= len,
                forall|k: int| 0 <= k < 4 ==> group_bounds@[k] == #[trigger] h[k],
                forall|k: int| 0 <= k < h.len() ==> 0 <= #[trigger] h[k] < u.len(),
                forall|k1: int, k2: int| 0 <= k1 < k2 < h.len() ==> h[k1] < h[k2],
                0 <= g <= 4,
                forall|k: int| 0 <= k < g ==> #[trigger] h[k] == group_start(k + 1) - 1,
                group_length_error(h, start as int, len as int, 0) == group_length_error(
                    h,
                    start as int,
                    len as int,
                    g as int,
                ),
                start <= 9,
            decreases 4 - g,
        {
            let bs: usize = block_start(g);
            let next: usize = block_start(g + 1);
            assert(group_bounds[g as int] == h[g as int]);
            if group_bounds[g] != next - 1 {
                assert(g == 0 || h[g - 1] == group_start(g as int) - 1);
                assert(group_length_error(h, start as int, len as int, g as int) == ErrorKind::GroupLength {
                    group: g,
                    len: (h[g as int] - group_start(g as int)) as usize,
                    index: (start + group_start(g as int) + 1) as usize,
                });
                return Error(
                    ErrorKind::GroupLength { group: g, len: group_bounds[g] - bs, index: start + bs + 1 },
                );
            }
            g += 1;
        }
        assert(h[3] == 23);
        Error(ErrorKind::GroupLength { group: 4, len: len - 24, index: start + 25 })
    }
}

} // verus!
