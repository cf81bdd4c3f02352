//! Big-endian encoding and decoding of 32-bit words, the integer layout of
//! the chunk wire format.

use vstd::prelude::*;

verus! {

/// The four-byte big-endian form of a 32-bit value, most significant byte
/// first.
pub open spec fn spec_u32_to_be(x: u32) -> Seq<u8> {
    seq![
        ((x >> 24) & 0xff) as u8,
        ((x >> 16) & 0xff) as u8,
        ((x >> 8) & 0xff) as u8,
        (x & 0xff) as u8,
    ]
}

/// The 32-bit value read from four big-endian bytes.
pub open spec fn spec_u32_from_be(s: Seq<u8>) -> u32
    recommends
        s.len() == 4,
{
    ((s[0] as u32) << 24) | ((s[1] as u32) << 16) | ((s[2] as u32) << 8) | (s[3] as u32)
}

/// Re-encoding the value read from four bytes yields the same four bytes.
pub proof fn lemma_u32_to_be_from_be(s: Seq<u8>)
    requires
        s.len() == 4,
    ensures
        spec_u32_to_be(spec_u32_from_be(s)) == s,
{
    let b0 = s[0];
    let b1 = s[1];
    let b2 = s[2];
    let b3 = s[3];
    let x = spec_u32_from_be(s);
    assert(x == ((b0 as u32) << 24) | ((b1 as u32) << 16) | ((b2 as u32) << 8) | (b3 as u32));
    let y = ((b0 as u32) << 24) | ((b1 as u32) << 16) | ((b2 as u32) << 8) | (b3 as u32);
    assert(((y >> 24) & 0xff) as u8 == b0 && ((y >> 16) & 0xff) as u8 == b1 && ((y >> 8) & 0xff)
        as u8 == b2 && (y & 0xff) as u8 == b3)
        by (bit_vector)
        requires
            y == ((b0 as u32) << 24) | ((b1 as u32) << 16) | ((b2 as u32) << 8) | (b3 as u32),
    ;
    assert(spec_u32_to_be(x) =~= s);
}

/// The four big-endian bytes of `x`.
pub fn u32_to_be(x: u32) -> (r: [u8; 4])
    ensures
        r@ == spec_u32_to_be(x),
{
    proof {
        assert((x >> 24) & 0xff < 256 && (x >> 16) & 0xff < 256 && (x >> 8) & 0xff < 256 && x
            & 0xff < 256) by (bit_vector);
    }
    let r = [((x >> 24) & 0xff) as u8, ((x >> 16) & 0xff) as u8, ((x >> 8) & 0xff) as u8, (x
        & 0xff) as u8];
    proof {
        assert(r@ =~= spec_u32_to_be(x));
    }
    r
}

/// The 32-bit value stored big-endian at `bytes[at .. at + 4]`.
pub fn read_u32_be(bytes: &[u8], at: usize) -> (r: u32)
    requires
        at + 4 <= bytes@.len(),
    ensures
        r == spec_u32_from_be(bytes@.subrange(at as int, at as int + 4)),
{
    let b0 = bytes[at];
    let b1 = bytes[at + 1];
    let b2 = bytes[at + 2];
    let b3 = bytes[at + 3];
    let r = ((b0 as u32) << 24) | ((b1 as u32) << 16) | ((b2 as u32) << 8) | (b3 as u32);
    proof {
        let s = bytes@.subrange(at as int, at as int + 4);
        assert(s[0] == b0 && s[1] == b1 && s[2] == b2 && s[3] == b3);
    }
    r
}

} // verus!
