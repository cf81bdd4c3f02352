//! Text decoding of payload bytes. Success and result are pinned to vstd's
//! mathematical UTF-8 model.

use vstd::prelude::*;
use vstd::utf8::decode_utf8;
use vstd::utf8::is_leading_byte_width_1;
use vstd::utf8::partial_valid_utf8;
use vstd::utf8::partial_valid_utf8_extend_ascii_block;
use vstd::utf8::utf8_byte_ranges_bitwise;
use vstd::utf8::valid_utf8;

verus! {

/// A sequence of ASCII bytes is valid UTF-8.
pub proof fn lemma_ascii_bytes_valid_utf8(bytes: Seq<u8>)
    requires
        forall|i: int| 0 <= i < bytes.len() ==> bytes[i] < 0x80,
    ensures
        valid_utf8(bytes),
{
    broadcast use utf8_byte_ranges_bitwise;

    assert(forall|i: int| 0 <= i < bytes.len() ==> is_leading_byte_width_1(#[trigger] bytes[i]));
    assert(partial_valid_utf8(bytes, 0)) by {
        assert(bytes.subrange(0, 0) =~= Seq::<u8>::empty());
    }
    partial_valid_utf8_extend_ascii_block(bytes, 0, bytes.len() as int);
    assert(bytes.subrange(0, bytes.len() as int) =~= bytes);
}

/// Relies on `core::str::from_utf8`: it succeeds exactly on valid UTF-8
/// input, and the characters of the result are the decoding of the bytes.
#[verifier::external_body]
pub fn utf8_to_string(bytes: &[u8]) -> (r: Option<String>)
    ensures
        (r is Some) == valid_utf8(bytes@),
        r matches Some(s) ==> s@ == decode_utf8(bytes@),
{
    match core::str::from_utf8(bytes) {
        Ok(s) => Some(s.to_string()),
        Err(_) => None,
    }
}

} // verus!
