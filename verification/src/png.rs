//! The container: the fixed eight-byte signature followed by an ordered
//! sequence of chunks. Insertion order is serialization order, and a parse
//! with no later mutation round-trips to the very bytes it was given.

use vstd::prelude::*;
use vstd::slice::slice_subrange;
use vstd::string::StringSliceAdditionalSpecFns;

use crate::chunk::Chunk;
use crate::chunk::ChunkModel;
use crate::chunk::lemma_parse_chunk_round_trip;
use crate::chunk::push_all;
use crate::chunk::spec_parse_chunk;
use crate::error::ChunkError;
use crate::wire::read_u32_be;
use crate::wire::spec_u32_from_be;
use crate::wire::spec_u32_to_be;

verus! {

/// The fixed file signature.
pub open spec fn spec_signature() -> Seq<u8> {
    seq![0x89u8, 0x50u8, 0x4eu8, 0x47u8, 0x0du8, 0x0au8, 0x1au8, 0x0au8]
}

/// The fixed file signature, `\x89PNG\r\n\x1a\n`.
pub fn signature() -> (r: [u8; 8])
    ensures
        r@ == spec_signature(),
{
    let r = [0x89u8, 0x50u8, 0x4eu8, 0x47u8, 0x0du8, 0x0au8, 0x1au8, 0x0au8];
    proof {
        assert(r@ =~= spec_signature());
    }
    r
}

/// What parsing a stream of chunk spans yields: the stream is consumed
/// chunk by chunk, each span being twelve bytes plus its declared length;
/// a dangling partial chunk is `TruncatedChunk`, and a chunk's own failure
/// is propagated.
pub open spec fn spec_parse_chunks(bytes: Seq<u8>) -> Result<Seq<ChunkModel>, ChunkError>
    decreases bytes.len(),
{
    if bytes.len() == 0 {
        Ok(Seq::empty())
    } else if bytes.len() < 4 {
        Err(ChunkError::TruncatedChunk)
    } else {
        let l = spec_u32_from_be(bytes.subrange(0, 4)) as int;
        if bytes.len() < 12 + l {
            Err(ChunkError::TruncatedChunk)
        } else {
            match spec_parse_chunk(bytes.subrange(0, 12 + l)) {
                Err(e) => Err(e),
                Ok(m) => match spec_parse_chunks(bytes.skip(12 + l)) {
                    Err(e) => Err(e),
                    Ok(rest) => Ok(seq![m] + rest),
                },
            }
        }
    }
}

/// What parsing a whole file yields: the signature must match exactly, and
/// the remainder is a stream of chunk spans.
pub open spec fn spec_parse_png(bytes: Seq<u8>) -> Result<Seq<ChunkModel>, ChunkError> {
    if bytes.len() < 8 || bytes.subrange(0, 8) != spec_signature() {
        Err(ChunkError::BadSignature)
    } else {
        spec_parse_chunks(bytes.skip(8))
    }
}

/// The serialized form of a chunk sequence: each chunk's bytes in order,
/// with no separators.
pub open spec fn spec_chunks_bytes(chunks: Seq<ChunkModel>) -> Seq<u8>
    decreases chunks.len(),
{
    if chunks.len() == 0 {
        Seq::empty()
    } else {
        chunks[0].spec_bytes() + spec_chunks_bytes(chunks.skip(1))
    }
}

/// The serialized form of a whole container: signature, then every chunk.
pub open spec fn spec_png_bytes(chunks: Seq<ChunkModel>) -> Seq<u8> {
    spec_signature() + spec_chunks_bytes(chunks)
}

/// Serialization distributes over concatenation of chunk sequences.
pub proof fn lemma_chunks_bytes_concat(a: Seq<ChunkModel>, b: Seq<ChunkModel>)
    ensures
        spec_chunks_bytes(a + b) == spec_chunks_bytes(a) + spec_chunks_bytes(b),
    decreases a.len(),
{
    if a.len() == 0 {
        assert(a + b =~= b);
        assert(spec_chunks_bytes(a) + spec_chunks_bytes(b) =~= spec_chunks_bytes(b));
    } else {
        assert((a + b).skip(1) =~= a.skip(1) + b);
        lemma_chunks_bytes_concat(a.skip(1), b);
        assert(spec_chunks_bytes(a + b) =~= spec_chunks_bytes(a) + spec_chunks_bytes(b));
    }
}

/// Serialization of a sequence that starts with `m` starts with `m`'s
/// bytes.
pub proof fn lemma_chunks_bytes_cons(m: ChunkModel, rest: Seq<ChunkModel>)
    ensures
        spec_chunks_bytes(seq![m] + rest) == m.spec_bytes() + spec_chunks_bytes(rest),
{
    assert((seq![m] + rest).len() == 1 + rest.len());
    assert((seq![m] + rest)[0] == m);
    assert((seq![m] + rest).skip(1) =~= rest);
}

/// Splitting a sequence at `k` and rejoining the parts yields it back.
pub proof fn lemma_split_rejoin(s: Seq<u8>, k: int)
    requires
        0 <= k <= s.len(),
    ensures
        s.subrange(0, k) + s.skip(k) == s,
{
    assert(s.subrange(0, k) + s.skip(k) =~= s);
}

/// Round trip of the chunk stream: serializing what parsed reproduces the
/// stream's bytes.
#[verifier::spinoff_prover]
#[verifier::rlimit(100)]
pub proof fn lemma_parse_chunks_round_trip(bytes: Seq<u8>)
    requires
        spec_parse_chunks(bytes) is Ok,
    ensures
        spec_chunks_bytes(spec_parse_chunks(bytes)->Ok_0) == bytes,
    decreases bytes.len(),
{
    if bytes.len() == 0 {
        assert(spec_chunks_bytes(Seq::empty()) =~= bytes);
    } else {
        let l = spec_u32_from_be(bytes.subrange(0, 4)) as int;
        let span = bytes.subrange(0, 12 + l);
        let m = spec_parse_chunk(span)->Ok_0;
        let rest = spec_parse_chunks(bytes.skip(12 + l))->Ok_0;
        lemma_parse_chunk_round_trip(span);
        lemma_parse_chunks_round_trip(bytes.skip(12 + l));
        lemma_chunks_bytes_cons(m, rest);
        lemma_split_rejoin(bytes, 12 + l);
        assert(spec_parse_chunks(bytes)->Ok_0 == seq![m] + rest);
    }
}

/// Round trip of the whole file (the unmutated-container law): serializing
/// what parsed reproduces the input bytes exactly.
#[verifier::spinoff_prover]
#[verifier::rlimit(100)]
pub proof fn lemma_parse_round_trip(bytes: Seq<u8>)
    requires
        spec_parse_png(bytes) is Ok,
    ensures
        spec_png_bytes(spec_parse_png(bytes)->Ok_0) == bytes,
{
    let tail = bytes.skip(8);
    assert(spec_parse_chunks(tail) is Ok);
    lemma_parse_chunks_round_trip(tail);
    let chunks = spec_parse_chunks(tail)->Ok_0;
    assert(spec_chunks_bytes(chunks) == tail);
    assert(spec_parse_png(bytes)->Ok_0 == chunks);
    assert(spec_signature() + tail =~= bytes);
}

/// The first index whose chunk's type bytes equal `name`, if any.
pub open spec fn spec_find_chunk(chunks: Seq<ChunkModel>, name: Seq<u8>) -> Option<int>
    decreases chunks.len(),
{
    if chunks.len() == 0 {
        None
    } else if spec_u32_to_be(chunks[0].type_code) == name {
        Some(0)
    } else {
        match spec_find_chunk(chunks.skip(1), name) {
            None => None,
            Some(i) => Some(i + 1),
        }
    }
}

/// `spec_find_chunk` names the first match: `None` means no chunk matches,
/// `Some(i)` means chunk `i` matches and none before it does.
pub proof fn lemma_find_chunk_characterization(chunks: Seq<ChunkModel>, name: Seq<u8>)
    ensures
        match spec_find_chunk(chunks, name) {
            None => forall|i: int|
                0 <= i < chunks.len() ==> spec_u32_to_be(chunks[i].type_code) != name,
            Some(i) => 0 <= i < chunks.len() && spec_u32_to_be(chunks[i].type_code) == name
                && forall|j: int| 0 <= j < i ==> spec_u32_to_be(chunks[j].type_code) != name,
        },
    decreases chunks.len(),
{
    if chunks.len() > 0 && spec_u32_to_be(chunks[0].type_code) != name {
        lemma_find_chunk_characterization(chunks.skip(1), name);
        assert(forall|i: int| 1 <= i < chunks.len() ==> chunks[i] == chunks.skip(1)[i - 1]);
    }
}

/// Appending a chunk whose type no present chunk carries, then removing by
/// that type, returns exactly the appended chunk and restores the sequence.
pub proof fn lemma_append_remove_inverse(chunks: Seq<ChunkModel>, m: ChunkModel, name: Seq<u8>)
    requires
        spec_find_chunk(chunks, name) is None,
        spec_u32_to_be(m.type_code) == name,
    ensures
        spec_find_chunk(chunks.push(m), name) == Some(chunks.len() as int),
        chunks.push(m).remove(chunks.len() as int) == chunks,
    decreases chunks.len(),
{
    assert(chunks.push(m).remove(chunks.len() as int) =~= chunks);
    if chunks.len() == 0 {
        assert(chunks.push(m)[0] == m);
    } else {
        assert(chunks.push(m)[0] == chunks[0]);
        assert(chunks.push(m).skip(1) =~= chunks.skip(1).push(m));
        lemma_append_remove_inverse(chunks.skip(1), m, name);
    }
}

/// The container: the fixed signature plus an ordered chunk sequence.
#[derive(Debug)]
pub struct Png {
    /// The chunks, in serialization order.
    pub chunks: Vec<Chunk>,
}

impl View for Png {
    type V = Seq<ChunkModel>;

    open spec fn view(&self) -> Seq<ChunkModel> {
        self.chunks@.map_values(|c: Chunk| c@)
    }
}

impl Png {
    /// A container holding exactly the given chunks, in order.
    pub fn from_chunks(chunks: Vec<Chunk>) -> (r: Png)
        ensures
            r.chunks@ == chunks@,
    {
        Png { chunks }
    }

    /// A container parsed from a byte buffer, exactly as `spec_parse_png`
    /// describes it; on success the container serializes back to `bytes`.
    pub fn parse(bytes: &[u8]) -> (r: Result<Png, ChunkError>)
        ensures
            (r is Ok) == (spec_parse_png(bytes@) is Ok),
            r matches Ok(p) ==> p@ == spec_parse_png(bytes@)->Ok_0,
            r matches Ok(p) ==> spec_png_bytes(p@) == bytes@,
            r matches Err(e) ==> spec_parse_png(bytes@) == Err::<Seq<ChunkModel>, ChunkError>(e),
    {
        let n = bytes.len();
        if n < 8 {
            return Err(ChunkError::BadSignature);
        }
        let sig = signature();
        let mut k: usize = 0;
        while k < 8
            invariant
                k <= 8,
                n == bytes@.len(),
                8 <= n,
                sig@ == spec_signature(),
                forall|i: int| 0 <= i < k ==> bytes@[i] == spec_signature()[i],
            decreases 8 - k,
        {
            if bytes[k] != sig[k] {
                return Err(ChunkError::BadSignature);
            }
            k = k + 1;
        }
        proof {
            assert(bytes@.subrange(0, 8) =~= spec_signature());
        }
        let ghost tail0 = bytes@.skip(8);
        let mut chunks: Vec<Chunk> = Vec::new();
        let mut pos: usize = 8;
        proof {
            assert(bytes@.subrange(8, n as int) =~= tail0);
            if spec_parse_chunks(tail0) is Ok {
                assert(chunks@.map_values(|c: Chunk| c@) + spec_parse_chunks(tail0)->Ok_0
                    =~= spec_parse_chunks(tail0)->Ok_0);
            }
        }
        while pos < n
            invariant
                8 <= pos <= n,
                n == bytes@.len(),
                spec_parse_png(bytes@) == spec_parse_chunks(tail0),
                spec_parse_chunks(tail0) == match spec_parse_chunks(
                    bytes@.subrange(pos as int, n as int),
                ) {
                    Ok(rest) => Ok::<Seq<ChunkModel>, ChunkError>(
                        chunks@.map_values(|c: Chunk| c@) + rest,
                    ),
                    Err(e) => Err::<Seq<ChunkModel>, ChunkError>(e),
                },
                tail0 == bytes@.skip(8),
            decreases n - pos,
        {
            let ghost tail = bytes@.subrange(pos as int, n as int);
            if n - pos < 4 {
                return Err(ChunkError::TruncatedChunk);
            }
            let l = read_u32_be(bytes, pos);
            proof {
                assert(bytes@.subrange(pos as int, pos as int + 4) =~= tail.subrange(0, 4));
            }
            if (l as u64) + 12 > (n - pos) as u64 {
                return Err(ChunkError::TruncatedChunk);
            }
            let span_len: usize = 12 + (l as usize);
            let span = slice_subrange(bytes, pos, pos + span_len);
            proof {
                assert(span@ =~= tail.subrange(0, 12 + (l as int)));
            }
            match Chunk::parse(span) {
                Err(e) => {
                    return Err(e);
                },
                Ok(c) => {
                    let ghost prev = chunks@;
                    chunks.push(c);
                    pos = pos + span_len;
                    proof {
                        let rest_tail = bytes@.subrange(pos as int, n as int);
                        assert(rest_tail =~= tail.skip(12 + (l as int)));
                        assert(chunks@.map_values(|ch: Chunk| ch@) =~= prev.map_values(
                            |ch: Chunk| ch@,
                        ).push(c@));
                        if spec_parse_chunks(rest_tail) is Ok {
                            let rest = spec_parse_chunks(rest_tail)->Ok_0;
                            assert(prev.map_values(|ch: Chunk| ch@) + (seq![c@] + rest)
                                =~= chunks@.map_values(|ch: Chunk| ch@) + rest);
                        }
                    }
                },
            }
        }
        proof {
            assert(bytes@.subrange(pos as int, n as int) =~= Seq::<u8>::empty());
            assert(spec_parse_chunks(bytes@.subrange(pos as int, n as int)) == Ok::<
                Seq<ChunkModel>,
                ChunkError,
            >(Seq::empty()));
            assert(chunks@.map_values(|c: Chunk| c@) + Seq::<ChunkModel>::empty() =~= chunks@
                .map_values(|c: Chunk| c@));
            lemma_parse_round_trip(bytes@);
        }
        Ok(Png { chunks })
    }

    /// Adds `chunk` at the end of the sequence; nothing else changes.
    pub fn append_chunk(&mut self, chunk: Chunk)
        ensures
            final(self).chunks@ == old(self).chunks@.push(chunk),
            final(self)@ == old(self)@.push(chunk@),
    {
        let ghost prev = self.chunks@;
        self.chunks.push(chunk);
        proof {
            assert(self.chunks@.map_values(|c: Chunk| c@) =~= prev.map_values(|c: Chunk| c@).push(
                chunk@,
            ));
        }
    }

    /// The index of the first chunk whose type bytes equal `name`, if any.
    fn position_of(&self, name: &[u8]) -> (r: Option<usize>)
        ensures
            match r {
                Some(i) => i < self.chunks@.len() && spec_find_chunk(self@, name@) == Some(
                    i as int,
                ),
                None => spec_find_chunk(self@, name@) is None,
            },
    {
        if name.len() != 4 {
            proof {
                lemma_find_chunk_characterization(self@, name@);
                if spec_find_chunk(self@, name@) is Some {
                    let i = spec_find_chunk(self@, name@)->0;
                    assert(spec_u32_to_be(self@[i].type_code).len() == 4);
                }
            }
            return None;
        }
        let mut i: usize = 0;
        while i < self.chunks.len()
            invariant
                i <= self.chunks@.len(),
                name@.len() == 4,
                self@.len() == self.chunks@.len(),
                forall|j: int| 0 <= j < i ==> spec_u32_to_be(self@[j].type_code) != name@,
                forall|j: int| 0 <= j < self.chunks@.len() ==> self@[j] == self.chunks@[j]@,
            decreases self.chunks@.len() - i,
        {
            let tb = self.chunks[i].chunk_type.bytes();
            if tb[0] == name[0] && tb[1] == name[1] && tb[2] == name[2] && tb[3] == name[3] {
                proof {
                    assert(tb@ =~= name@);
                    assert(spec_u32_to_be(self@[i as int].type_code) == name@);
                    lemma_find_chunk_characterization(self@, name@);
                    if spec_find_chunk(self@, name@) is None {
                        assert(spec_u32_to_be(self@[i as int].type_code) != name@);
                    }
                    let fi = spec_find_chunk(self@, name@)->0;
                    if fi < i {
                        assert(spec_u32_to_be(self@[fi].type_code) != name@);
                    }
                    if fi > i {
                        assert(spec_u32_to_be(self@[i as int].type_code) != name@);
                    }
                }
                return Some(i);
            }
            proof {
                assert(tb@ != name@) by {
                    if tb@ == name@ {
                        assert(tb@[0] == name@[0] && tb@[1] == name@[1] && tb@[2] == name@[2]
                            && tb@[3] == name@[3]);
                    }
                };
                assert(spec_u32_to_be(self@[i as int].type_code) != name@);
            }
            i = i + 1;
        }
        proof {
            lemma_find_chunk_characterization(self@, name@);
        }
        None
    }

    /// A reference to the first chunk, in sequence order, whose type bytes
    /// are the UTF-8 bytes of `chunk_type` — equivalently, whose display
    /// string equals `chunk_type` (see
    /// `ChunkType::lemma_display_string_names_type`); `NotFound` where none
    /// matches.
    pub fn chunk_by_type(&self, chunk_type: &str) -> (r: Result<&Chunk, ChunkError>)
        ensures
            (r is Ok) == (spec_find_chunk(self@, chunk_type.spec_bytes()) is Some),
            r matches Ok(c) ==> spec_find_chunk(self@, chunk_type.spec_bytes()) matches Some(i)
                && *c == self.chunks@[i],
            r matches Err(e) ==> e == ChunkError::NotFound,
    {
        match self.position_of(chunk_type.as_bytes()) {
            Some(i) => {
                proof {
                    lemma_find_chunk_characterization(self@, chunk_type.spec_bytes());
                }
                Ok(&self.chunks[i])
            },
            None => Err(ChunkError::NotFound),
        }
    }

    /// Removes and returns the first chunk whose type bytes are the UTF-8
    /// bytes of `chunk_type`; the order of the remaining chunks is kept. On
    /// `NotFound` the container is unmodified.
    pub fn remove_chunk(&mut self, chunk_type: &str) -> (r: Result<Chunk, ChunkError>)
        ensures
            (r is Ok) == (spec_find_chunk(old(self)@, chunk_type.spec_bytes()) is Some),
            r matches Ok(c) ==> spec_find_chunk(old(self)@, chunk_type.spec_bytes())
                matches Some(i) && c == old(self).chunks@[i] && final(self).chunks@ == old(
                self,
            ).chunks@.remove(i) && final(self)@ == old(self)@.remove(i),
            r matches Err(e) ==> e == ChunkError::NotFound && final(self).chunks@ == old(
                self,
            ).chunks@ && final(self)@ == old(self)@,
    {
        match self.position_of(chunk_type.as_bytes()) {
            Some(i) => {
                let ghost prev = self.chunks@;
                let c = self.chunks.remove(i);
                proof {
                    assert(self.chunks@.map_values(|ch: Chunk| ch@) =~= prev.map_values(
                        |ch: Chunk| ch@,
                    ).remove(i as int));
                }
                Ok(c)
            },
            None => Err(ChunkError::NotFound),
        }
    }

    /// The canonical serialization: the signature, then every chunk's bytes
    /// in sequence order, with no separators.
    pub fn as_bytes(&self) -> (r: Vec<u8>)
        ensures
            r@ == spec_png_bytes(self@),
    {
        let sig = signature();
        let mut out: Vec<u8> = Vec::new();
        push_all(&mut out, sig.as_slice());
        let mut i: usize = 0;
        while i < self.chunks.len()
            invariant
                i <= self.chunks@.len(),
                self@.len() == self.chunks@.len(),
                out@ == spec_signature() + spec_chunks_bytes(self@.take(i as int)),
                forall|j: int| 0 <= j < self.chunks@.len() ==> self@[j] == self.chunks@[j]@,
            decreases self.chunks@.len() - i,
        {
            let cb = self.chunks[i].as_bytes();
            push_all(&mut out, cb.as_slice());
            i = i + 1;
            proof {
                let el = self@[i - 1];
                assert(self@.take(i as int) =~= self@.take(i - 1) + seq![el]);
                lemma_chunks_bytes_concat(self@.take(i - 1), seq![el]);
                assert(seq![el].skip(1) =~= Seq::<ChunkModel>::empty());
                assert(spec_chunks_bytes(Seq::<ChunkModel>::empty()) == Seq::<u8>::empty());
                assert(seq![el][0] == el);
                assert(spec_chunks_bytes(seq![el]) =~= el.spec_bytes());
                assert(out@ =~= spec_signature() + spec_chunks_bytes(self@.take(i as int)));
            }
        }
        proof {
            assert(self@.take(self@.len() as int) =~= self@);
        }
        out
    }
}

} // verus!

