//! Cutting a message down to a byte budget without splitting a character.

use vstd::prelude::*;
use vstd::utf8::*;
use vstd::string::*;

verus! {

broadcast use vstd::utf8::group_utf8_lib;

/// The largest character boundary of `bytes` that is not above `at`
/// (0 when `at` is not positive).
pub open spec fn floor_char_boundary(bytes: Seq<u8>, at: int) -> int
    decreases at,
{
    if at <= 0 {
        0
    } else if is_char_boundary(bytes, at) {
        at
    } else {
        floor_char_boundary(bytes, at - 1)
    }
}

/// `s` cut down to at most `max_bytes` bytes of UTF-8: unchanged when it
/// fits, else its encoding up to the last character boundary that fits.
pub open spec fn truncated(s: Seq<char>, max_bytes: nat) -> Seq<char> {
    let bytes = encode_utf8(s);
    if bytes.len() <= max_bytes {
        s
    } else {
        decode_utf8(bytes.subrange(0, floor_char_boundary(bytes, max_bytes as int)))
    }
}

proof fn lemma_floor_char_boundary(bytes: Seq<u8>, at: int)
    requires
        valid_utf8(bytes),
        at <= bytes.len(),
    ensures
        0 <= floor_char_boundary(bytes, at),
        at >= 0 ==> floor_char_boundary(bytes, at) <= at,
        is_char_boundary(bytes, floor_char_boundary(bytes, at)),
        forall|k: int|
            floor_char_boundary(bytes, at) < k <= at ==> !#[trigger] is_char_boundary(bytes, k),
    decreases at,
{
    if at > 0 && !is_char_boundary(bytes, at) {
        lemma_floor_char_boundary(bytes, at - 1);
    }
}

/// The truncated text is a prefix of the original in bytes, fits the budget,
/// and is well-formed UTF-8.
pub proof fn lemma_truncated_fits(s: Seq<char>, max_bytes: nat)
    ensures
        encode_utf8(truncated(s, max_bytes)).len() <= max_bytes,
        encode_utf8(truncated(s, max_bytes)) == encode_utf8(s).subrange(
            0,
            encode_utf8(truncated(s, max_bytes)).len() as int,
        ),
        valid_utf8(encode_utf8(truncated(s, max_bytes))),
{
    let bytes = encode_utf8(s);
    if bytes.len() > max_bytes {
        let end = floor_char_boundary(bytes, max_bytes as int);
        lemma_floor_char_boundary(bytes, max_bytes as int);
        valid_utf8_split(bytes, end);
        decode_utf8_encode_utf8(bytes.subrange(0, end));
    } else {
        assert(bytes == bytes.subrange(0, bytes.len() as int));
    }
}

/// Cutting at a budget that falls inside a multi-byte character leaves
/// strictly fewer bytes than the budget.
pub proof fn lemma_truncation_inside_char(s: Seq<char>, max_bytes: nat)
    requires
        encode_utf8(s).len() > max_bytes,
        !is_char_boundary(encode_utf8(s), max_bytes as int),
    ensures
        encode_utf8(truncated(s, max_bytes)).len() < max_bytes,
{
    let bytes = encode_utf8(s);
    let end = floor_char_boundary(bytes, max_bytes as int);
    lemma_floor_char_boundary(bytes, max_bytes as int);
    valid_utf8_split(bytes, end);
    decode_utf8_encode_utf8(bytes.subrange(0, end));
}

/// Returns `s` cut to at most `max_bytes` bytes, ending on a character
/// boundary.
pub fn truncate_string(s: &str, max_bytes: usize) -> (r: String)
    ensures
        r@ == truncated(s@, max_bytes as nat),
{
    let n: usize = s.as_bytes().len();
    if n <= max_bytes {
        s.to_owned()
    } else {
        let ghost bytes = s.spec_bytes();
        let mut end: usize = max_bytes;
        while !s.is_char_boundary(end) && end > 0
            invariant
                bytes == s.spec_bytes(),
                bytes == encode_utf8(s@),
                valid_utf8(bytes),
                end <= max_bytes < bytes.len(),
                floor_char_boundary(bytes, end as int) == floor_char_boundary(
                    bytes,
                    max_bytes as int,
                ),
            decreases end,
        {
            end -= 1;
        }
        assert(floor_char_boundary(bytes, end as int) == end);
        let (head, _tail) = s.split_at(end);
        proof {
            encode_utf8_decode_utf8(head@);
            assert(head.spec_bytes() == bytes.subrange(0, end as int));
        }
        head.to_owned()
    }
}

} // verus!
