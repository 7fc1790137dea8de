//! Truncation of a text to a number of bytes of its UTF-8 encoding.
use vstd::prelude::*;
use vstd::string::StringSliceAdditionalSpecFns;
use vstd::utf8::*;

verus! {

broadcast use vstd::utf8::encode_utf8_valid_utf8;

/// The UTF-8 encoding of `s`.
pub open spec fn bytes_of(s: &str) -> Seq<u8> {
    s.spec_bytes()
}

/// The byte length of the longest prefix of `bytes` that ends on a character
/// boundary and is no longer than `limit`.
pub open spec fn boundary_at_or_below(bytes: Seq<u8>, limit: nat) -> nat
    decreases limit,
{
    if limit == 0 || is_char_boundary(bytes, limit as int) {
        limit
    } else {
        boundary_at_or_below(bytes, (limit - 1) as nat)
    }
}

/// The cut that truncation makes lies on a character boundary at or below
/// the limit, and no boundary lies between it and the limit: it is the
/// longest prefix that does not split a character.
pub proof fn lemma_truncation_point(bytes: Seq<u8>, limit: nat)
    requires
        valid_utf8(bytes),
        limit <= bytes.len(),
    ensures
        boundary_at_or_below(bytes, limit) <= limit,
        is_char_boundary(bytes, boundary_at_or_below(bytes, limit) as int),
        forall|j: int|
            boundary_at_or_below(bytes, limit) < j <= limit ==> !#[trigger] is_char_boundary(
                bytes,
                j,
            ),
    decreases limit,
{
    if limit > 0 && !is_char_boundary(bytes, limit as int) {
        lemma_truncation_point(bytes, (limit - 1) as nat);
    }
}

/// Truncates `s` to at most `length` bytes without splitting a character.
///
/// A zero `length`, or a text shorter than `length` bytes, is returned
/// unchanged. Otherwise the result is the longest prefix of `s` that ends on a
/// character boundary at or below `length` bytes.
pub fn truncate_byte_len(s: &str, length: usize) -> (r: &str)
    ensures
        length == 0 || bytes_of(s).len() < length ==> r@ == s@,
        !(length == 0 || bytes_of(s).len() < length) ==> bytes_of(r) == bytes_of(s).subrange(
            0,
            boundary_at_or_below(bytes_of(s), length as nat) as int,
        ),
        r@.len() <= s@.len(),
        r@ == s@.subrange(0, r@.len() as int),
{
    let n = s.as_bytes().len();
    if length == 0 || n < length {
        return s;
    }
    let ghost bytes = bytes_of(s);
    let mut valid_len: usize = length;
    while !s.is_char_boundary(valid_len)
        invariant
            0 < length <= bytes.len(),
            bytes == bytes_of(s),
            valid_utf8(bytes),
            valid_len <= length,
            boundary_at_or_below(bytes, valid_len as nat) == boundary_at_or_below(
                bytes,
                length as nat,
            ),
        decreases valid_len,
    {
        valid_len = valid_len - 1;
    }
    let (head, _tail) = s.split_at(valid_len);
    proof {
        let k = valid_len as int;
        decode_utf8_split(bytes, k);
        encode_utf8_decode_utf8(s@);
        encode_utf8_decode_utf8(head@);
        assert(bytes_of(head) =~= bytes.subrange(0, k));
        assert(head@ == decode_utf8(bytes.subrange(0, k)));
        assert(s@ =~= head@ + decode_utf8(bytes.subrange(k, bytes.len() as int)));
        assert(s@.subrange(0, head@.len() as int) =~= head@);
    }
    head
}

} // verus!
