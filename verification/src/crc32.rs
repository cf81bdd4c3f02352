//! The CRC-32 used for chunk integrity: the reflected variant with
//! polynomial 0x04C11DB7 and init/xorout 0xFFFFFFFF that all PNG tooling
//! shares.

use vstd::prelude::*;

verus! {

/// The CRC-32 of a byte sequence under the PNG variant. The algorithm takes
/// pages to state, so the checksum is left as a named function of the input
/// bytes; `crc32_checksum` is the one way to obtain it.
pub uninterp spec fn spec_crc32(bytes: Seq<u8>) -> u32;

/// Relies on `crc::Crc::<u32>::checksum` over `crc::CRC_32_ISO_HDLC`
/// (width 32, poly 0x04C11DB7, init 0xFFFFFFFF, reflected input and output,
/// xorout 0xFFFFFFFF — the PNG CRC-32): the checksum is a function of the
/// input bytes alone.
#[verifier::external_body]
pub fn crc32_checksum(bytes: &[u8]) -> (r: u32)
    ensures
        r == spec_crc32(bytes@),
{
    crc::Crc::<u32>::new(&crc::CRC_32_ISO_HDLC).checksum(bytes)
}

} // verus!
