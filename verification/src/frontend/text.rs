//! Source text as bytes: where characters begin, and how a part of the text
//! is cut out.

use vstd::prelude::*;
use vstd::string::*;
use vstd::utf8::*;

verus! {

/// Whether `at` is where a character of `bytes` begins, or the end of
/// `bytes`.
pub open spec fn at_boundary(bytes: Seq<u8>, at: int) -> bool {
    0 <= at <= bytes.len() && (at < bytes.len() ==> !is_continuation_byte(bytes[at]))
}

/// The characters that the bytes from `start` up to `end` encode.
pub open spec fn text_between(bytes: Seq<u8>, start: int, end: int) -> Seq<char> {
    decode_utf8(bytes.subrange(start, end))
}

/// In a text, the places where a character begins are its character
/// boundaries.
pub proof fn lemma_boundary(bytes: Seq<u8>, at: int)
    requires
        valid_utf8(bytes),
        at_boundary(bytes, at),
    ensures
        is_char_boundary(bytes, at),
{
    if at < bytes.len() {
        is_char_boundary_iff_not_is_continuation_byte(bytes, at);
    } else {
        is_char_boundary_start_end_of_seq(bytes);
    }
}

/// In a text, a character begins after every byte below 128.
pub proof fn lemma_boundary_after_ascii(bytes: Seq<u8>, at: int)
    requires
        valid_utf8(bytes),
        0 <= at < bytes.len(),
        bytes[at] < 0x80,
    ensures
        at_boundary(bytes, at + 1),
{
    lemma_boundary(bytes, at);
    valid_utf8_split(bytes, at);
    let tail = bytes.subrange(at, bytes.len() as int);
    assert(tail[0] == bytes[at]);
    assert(valid_utf8(pop_first_scalar(tail)));
    let rest = pop_first_scalar(tail);
    if at + 1 < bytes.len() {
        assert(rest[0] == bytes[at + 1]);
        assert(valid_first_scalar(rest));
    }
}

/// The part of `text` from the byte `start` up to the byte `end`.
pub fn slice(text: &str, start: usize, end: usize) -> (part: String)
    requires
        start <= end,
        at_boundary(text.spec_bytes(), start as int),
        at_boundary(text.spec_bytes(), end as int),
    ensures
        part@ == text_between(text.spec_bytes(), start as int, end as int),
{
    let ghost bytes = text.spec_bytes();
    proof {
        encode_utf8_valid_utf8(text@);
        lemma_boundary(bytes, start as int);
        valid_utf8_split(bytes, start as int);
    }
    let (_, tail) = text.split_at(start);
    proof {
        assert(tail.spec_bytes() == bytes.subrange(start as int, bytes.len() as int));
        assert(at_boundary(tail.spec_bytes(), end - start));
        lemma_boundary(tail.spec_bytes(), end - start);
    }
    let (part, _) = tail.split_at(end - start);
    proof {
        assert(part.spec_bytes() =~= bytes.subrange(start as int, end as int));
        encode_utf8_decode_utf8(part@);
    }
    part.to_owned()
}

} // verus!
