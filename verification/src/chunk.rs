//! One chunk record: a declared length, a type code, a payload and a
//! CRC-32 over type and payload. On the wire it is
//! `[length][type][payload][crc]` with both 32-bit words big-endian.

use vstd::prelude::*;
use vstd::slice::slice_subrange;
use vstd::slice::slice_to_vec;
use vstd::utf8::decode_utf8;
use vstd::utf8::valid_utf8;

use crate::chunk_type::ChunkType;
use crate::crc32::crc32_checksum;
use crate::crc32::spec_crc32;
use crate::error::ChunkError;
use crate::text::utf8_to_string;
use crate::wire::lemma_u32_to_be_from_be;
use crate::wire::read_u32_be;
use crate::wire::spec_u32_from_be;
use crate::wire::spec_u32_to_be;
use crate::wire::u32_to_be;

verus! {

/// The mathematical content of one chunk record.
pub ghost struct ChunkModel {
    /// The declared payload length, as carried in the length field.
    pub data_length: u32,
    /// The 32-bit type code.
    pub type_code: u32,
    /// The payload bytes.
    pub payload: Seq<u8>,
    /// The stored CRC.
    pub crc: u32,
}

/// The CRC that protects a chunk: the checksum of the four type bytes
/// followed by the payload. The length field is never covered.
pub open spec fn spec_chunk_crc(type_code: u32, payload: Seq<u8>) -> u32 {
    spec_crc32(spec_u32_to_be(type_code) + payload)
}

impl ChunkModel {
    /// The on-wire form: big-endian length, type bytes, payload, big-endian
    /// CRC.
    pub open spec fn spec_bytes(self) -> Seq<u8> {
        spec_u32_to_be(self.data_length) + spec_u32_to_be(self.type_code) + self.payload
            + spec_u32_to_be(self.crc)
    }

    /// The stored CRC is the CRC of type and payload.
    pub open spec fn crc_ok(self) -> bool {
        self.crc == spec_chunk_crc(self.type_code, self.payload)
    }
}

/// What parsing a chunk span yields: fewer than twelve bytes is `TooShort`;
/// otherwise the fields are sliced out — the payload spans everything
/// between the type and the trailing CRC — and a stored CRC that differs
/// from the recomputed one is `CrcMismatch`.
pub open spec fn spec_parse_chunk(bytes: Seq<u8>) -> Result<ChunkModel, ChunkError> {
    if bytes.len() < 12 {
        Err(ChunkError::TooShort)
    } else {
        let m = ChunkModel {
            data_length: spec_u32_from_be(bytes.subrange(0, 4)),
            type_code: spec_u32_from_be(bytes.subrange(4, 8)),
            payload: bytes.subrange(8, bytes.len() - 4),
            crc: spec_u32_from_be(bytes.subrange(bytes.len() - 4, bytes.len() as int)),
        };
        if m.crc != spec_chunk_crc(m.type_code, m.payload) {
            Err(ChunkError::CrcMismatch)
        } else {
            Ok(m)
        }
    }
}

/// Serializing a successfully parsed span reproduces the span, whatever its
/// declared length field holds.
pub proof fn lemma_parse_chunk_round_trip(bytes: Seq<u8>)
    requires
        spec_parse_chunk(bytes) is Ok,
    ensures
        spec_parse_chunk(bytes)->Ok_0.spec_bytes() == bytes,
{
    let m = spec_parse_chunk(bytes)->Ok_0;
    lemma_u32_to_be_from_be(bytes.subrange(0, 4));
    lemma_u32_to_be_from_be(bytes.subrange(4, 8));
    lemma_u32_to_be_from_be(bytes.subrange(bytes.len() - 4, bytes.len() as int));
    assert(m.spec_bytes() =~= bytes);
}

/// One length-prefixed, CRC-protected record.
#[derive(Debug)]
pub struct Chunk {
    /// The declared payload length.
    pub data_length: u32,
    /// The type code.
    pub chunk_type: ChunkType,
    /// The payload.
    pub message_bytes: Vec<u8>,
    /// The stored CRC over type and payload.
    pub crc: u32,
}

impl View for Chunk {
    type V = ChunkModel;

    open spec fn view(&self) -> ChunkModel {
        ChunkModel {
            data_length: self.data_length,
            type_code: self.chunk_type.0,
            payload: self.message_bytes@,
            crc: self.crc,
        }
    }
}

/// The CRC over the four bytes of `chunk_type` followed by `data`.
pub fn get_crc_checksum(chunk_type: &ChunkType, data: &Vec<u8>) -> (r: u32)
    ensures
        r == spec_chunk_crc(chunk_type.0, data@),
{
    let tb = u32_to_be(chunk_type.0);
    let mut buf: Vec<u8> = slice_to_vec(tb.as_slice());
    let mut i: usize = 0;
    while i < data.len()
        invariant
            i <= data@.len(),
            buf@ == spec_u32_to_be(chunk_type.0) + data@.take(i as int),
        decreases data@.len() - i,
    {
        buf.push(data[i]);
        i = i + 1;
        proof {
            assert(data@.take(i as int) =~= data@.take(i - 1).push(data@[i - 1]));
        }
    }
    proof {
        assert(buf@ =~= spec_u32_to_be(chunk_type.0) + data@);
    }
    crc32_checksum(buf.as_slice())
}

/// Appends every byte of `src` to `dst`.
pub fn push_all(dst: &mut Vec<u8>, src: &[u8])
    ensures
        final(dst)@ == old(dst)@ + src@,
{
    let mut i: usize = 0;
    while i < src.len()
        invariant
            i <= src@.len(),
            dst@ == old(dst)@ + src@.take(i as int),
        decreases src@.len() - i,
    {
        dst.push(src[i]);
        i = i + 1;
        proof {
            assert(src@.take(i as int) =~= src@.take(i - 1).push(src@[i - 1]));
        }
    }
    proof {
        assert(old(dst)@ + src@.take(src@.len() as int) =~= old(dst)@ + src@);
    }
}

impl Chunk {
    /// A fresh chunk: the length is the payload size and the CRC is
    /// computed over type and payload.
    pub fn new(chunk_type: ChunkType, data: Vec<u8>) -> (r: Chunk)
        requires
            data@.len() <= u32::MAX,
        ensures
            r@.data_length == data@.len(),
            r@.type_code == chunk_type.0,
            r@.payload == data@,
            r@.crc_ok(),
    {
        let crc_chksm = get_crc_checksum(&chunk_type, &data);
        let data_length = data.len() as u32;
        Chunk { data_length, chunk_type, message_bytes: data, crc: crc_chksm }
    }

    /// One chunk parsed from a byte span, exactly as `spec_parse_chunk`
    /// describes it: `TooShort` under twelve bytes, `CrcMismatch` where the
    /// stored CRC is not the CRC of type and payload, the fields otherwise.
    pub fn parse(bytes: &[u8]) -> (r: Result<Chunk, ChunkError>)
        ensures
            (r is Ok) == (spec_parse_chunk(bytes@) is Ok),
            r matches Ok(c) ==> c@ == spec_parse_chunk(bytes@)->Ok_0,
            r matches Err(e) ==> spec_parse_chunk(bytes@) == Err::<ChunkModel, ChunkError>(e),
    {
        let n = bytes.len();
        if n < 12 {
            return Err(ChunkError::TooShort);
        }
        let data_length = read_u32_be(bytes, 0);
        let type_code = read_u32_be(bytes, 4);
        let stored_crc = read_u32_be(bytes, n - 4);
        let chunk_type = ChunkType(type_code);
        let payload: Vec<u8> = slice_to_vec(slice_subrange(bytes, 8, n - 4));
        let computed = get_crc_checksum(&chunk_type, &payload);
        if stored_crc != computed {
            return Err(ChunkError::CrcMismatch);
        }
        proof {
            assert(bytes@.subrange(n - 4, n as int) =~= bytes@.subrange(
                bytes@.len() - 4,
                bytes@.len() as int,
            ));
        }
        Ok(Chunk { data_length, chunk_type, message_bytes: payload, crc: stored_crc })
    }

    /// The declared payload length.
    pub fn length(&self) -> (r: u32)
        ensures
            r == self@.data_length,
    {
        self.data_length
    }

    /// The type code.
    pub fn chunk_type(&self) -> (r: &ChunkType)
        ensures
            r.0 == self@.type_code,
    {
        &self.chunk_type
    }

    /// The payload bytes.
    pub fn data(&self) -> (r: &[u8])
        ensures
            r@ == self@.payload,
    {
        self.message_bytes.as_slice()
    }

    /// The stored CRC.
    pub fn crc(&self) -> (r: u32)
        ensures
            r == self@.crc,
    {
        self.crc
    }

    /// The payload as text; `EncodingError` where it is not valid UTF-8.
    pub fn data_as_string(&self) -> (r: Result<String, ChunkError>)
        ensures
            (r is Ok) == valid_utf8(self@.payload),
            r matches Ok(s) ==> s@ == decode_utf8(self@.payload),
            r matches Err(e) ==> e == ChunkError::EncodingError,
    {
        match utf8_to_string(self.message_bytes.as_slice()) {
            Some(s) => Ok(s),
            None => Err(ChunkError::EncodingError),
        }
    }

    /// The canonical on-wire form: big-endian length, type bytes, payload,
    /// big-endian CRC.
    pub fn as_bytes(&self) -> (r: Vec<u8>)
        ensures
            r@ == self@.spec_bytes(),
    {
        let mut out: Vec<u8> = Vec::new();
        push_all(&mut out, u32_to_be(self.data_length).as_slice());
        push_all(&mut out, u32_to_be(self.chunk_type.0).as_slice());
        push_all(&mut out, self.message_bytes.as_slice());
        push_all(&mut out, u32_to_be(self.crc).as_slice());
        proof {
            assert(out@ =~= self@.spec_bytes());
        }
        out
    }
}

} // verus!
