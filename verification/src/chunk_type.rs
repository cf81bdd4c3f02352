//! The four-byte chunk type code. Letter case of each byte carries the
//! critical/public/reserved/safe-to-copy semantics; validity asks for four
//! ASCII letters with the reserved byte uppercase.

use vstd::prelude::*;
use vstd::string::StringSliceAdditionalSpecFns;
use vstd::string::is_ascii;
use vstd::string::is_ascii_spec_bytes;
use vstd::utf8::decode_utf8;
use vstd::utf8::valid_utf8;

use crate::error::ChunkError;
use crate::text::lemma_ascii_bytes_valid_utf8;
use crate::text::utf8_to_string;
use crate::wire::lemma_u32_to_be_from_be;
use crate::wire::spec_u32_from_be;
use crate::wire::spec_u32_to_be;
use crate::wire::u32_to_be;

verus! {

/// A chunk type code: a 32-bit value interpreted as four ASCII bytes,
/// most significant byte first. Compared by the underlying value.
#[derive(Debug, Clone, Copy, PartialEq, Eq, Structural)]
pub struct ChunkType(pub u32);

/// `b` is an ASCII lowercase letter.
pub open spec fn is_lower(b: u8) -> bool {
    97 <= b && b <= 122
}

/// `b` is an ASCII uppercase letter.
pub open spec fn is_upper(b: u8) -> bool {
    65 <= b && b <= 90
}

/// `b` is an ASCII letter of either case.
pub open spec fn is_letter(b: u8) -> bool {
    is_lower(b) || is_upper(b)
}

/// `b` is an ASCII lowercase letter.
pub fn byte_is_lower(b: u8) -> (r: bool)
    ensures
        r == is_lower(b),
{
    97 <= b && b <= 122
}

/// `b` is an ASCII uppercase letter.
pub fn byte_is_upper(b: u8) -> (r: bool)
    ensures
        r == is_upper(b),
{
    65 <= b && b <= 90
}

/// `b` is an ASCII letter of either case.
pub fn byte_is_letter(b: u8) -> (r: bool)
    ensures
        r == is_letter(b),
{
    byte_is_lower(b) || byte_is_upper(b)
}

impl ChunkType {
    /// The four type bytes, most significant first.
    pub open spec fn spec_bytes(self) -> Seq<u8> {
        spec_u32_to_be(self.0)
    }

    /// All four bytes are ASCII letters and the reserved byte (position 2)
    /// is uppercase.
    pub open spec fn spec_is_valid(self) -> bool {
        &&& is_letter(self.spec_bytes()[0])
        &&& is_letter(self.spec_bytes()[1])
        &&& is_letter(self.spec_bytes()[2])
        &&& is_letter(self.spec_bytes()[3])
        &&& is_upper(self.spec_bytes()[2])
    }

    /// Valid, and byte 0 is uppercase: the chunk is critical.
    pub open spec fn spec_is_critical(self) -> bool {
        self.spec_is_valid() && is_upper(self.spec_bytes()[0])
    }

    /// Valid, and byte 1 is uppercase: the chunk is public.
    pub open spec fn spec_is_public(self) -> bool {
        self.spec_is_valid() && is_upper(self.spec_bytes()[1])
    }

    /// Valid, and byte 2 is uppercase: the reserved bit is valid.
    pub open spec fn spec_is_reserved_bit_valid(self) -> bool {
        self.spec_is_valid() && is_upper(self.spec_bytes()[2])
    }

    /// Valid, and byte 3 is lowercase: the chunk is safe to copy.
    pub open spec fn spec_is_safe_to_copy(self) -> bool {
        self.spec_is_valid() && !is_upper(self.spec_bytes()[3])
    }

    /// The code whose big-endian bytes are `value`. Structurally this always
    /// succeeds; validity is a separate predicate.
    pub fn from_bytes(value: [u8; 4]) -> (r: ChunkType)
        ensures
            r.spec_bytes() == value@,
            r.0 == spec_u32_from_be(value@),
    {
        let code = ((value[0] as u32) << 24) | ((value[1] as u32) << 16) | ((value[2] as u32)
            << 8) | (value[3] as u32);
        proof {
            assert(value@.len() == 4);
            assert(code == spec_u32_from_be(value@));
            lemma_u32_to_be_from_be(value@);
        }
        ChunkType(code)
    }

    /// The code named by a string of exactly four single-byte (ASCII)
    /// characters; any other string is an `InvalidTypeString` error.
    pub fn from_str(s: &str) -> (r: Result<ChunkType, ChunkError>)
        ensures
            (r is Ok) == (is_ascii(s) && s@.len() == 4),
            r matches Ok(t) ==> t.spec_bytes() == s.spec_bytes(),
            r matches Err(e) ==> e == ChunkError::InvalidTypeString,
    {
        proof {
            is_ascii_spec_bytes(s);
        }
        if !s.is_ascii() {
            return Err(ChunkError::InvalidTypeString);
        }
        let b = s.as_bytes();
        if b.len() != 4 {
            return Err(ChunkError::InvalidTypeString);
        }
        let t = ChunkType::from_bytes([b[0], b[1], b[2], b[3]]);
        proof {
            assert(t.spec_bytes() =~= s.spec_bytes());
        }
        Ok(t)
    }

    /// Matching a type against a name over UTF-8 bytes is matching it by
    /// display string: a displayable type displays as `s` exactly when its
    /// four bytes are the UTF-8 bytes of `s`.
    pub proof fn lemma_display_string_names_type(self, s: &str)
        requires
            valid_utf8(self.spec_bytes()),
        ensures
            (decode_utf8(self.spec_bytes()) == s@) <==> (self.spec_bytes() == s.spec_bytes()),
    {
        vstd::utf8::decode_utf8_encode_utf8(self.spec_bytes());
        vstd::utf8::encode_utf8_decode_utf8(s@);
    }

    /// The four type bytes, most significant first.
    pub fn bytes(&self) -> (r: [u8; 4])
        ensures
            r@ == self.spec_bytes(),
    {
        u32_to_be(self.0)
    }

    /// The type name as text; `EncodingError` where the four bytes are not
    /// valid UTF-8. A valid type is four ASCII letters, so it always has
    /// one.
    pub fn to_display_string(&self) -> (r: Result<String, ChunkError>)
        ensures
            (r is Ok) == valid_utf8(self.spec_bytes()),
            r matches Ok(s) ==> s@ == decode_utf8(self.spec_bytes()),
            r matches Err(e) ==> e == ChunkError::EncodingError,
            self.spec_is_valid() ==> r is Ok,
    {
        proof {
            if self.spec_is_valid() {
                lemma_ascii_bytes_valid_utf8(self.spec_bytes());
            }
        }
        let b = self.bytes();
        match utf8_to_string(b.as_slice()) {
            Some(s) => Ok(s),
            None => Err(ChunkError::EncodingError),
        }
    }

    /// True iff all four bytes are ASCII letters and byte 2 is uppercase.
    pub fn is_valid(&self) -> (r: bool)
        ensures
            r == self.spec_is_valid(),
    {
        let b = self.bytes();
        byte_is_letter(b[0]) && byte_is_letter(b[1]) && byte_is_letter(b[2]) && byte_is_letter(
            b[3],
        ) && byte_is_upper(b[2])
    }

    /// The exact negation of `is_valid`.
    pub fn is_err(&self) -> (r: bool)
        ensures
            r == !self.spec_is_valid(),
    {
        !self.is_valid()
    }

    /// Byte `bit_position` exists and is uppercase.
    fn set_bitness(&self, bit_position: usize) -> (r: bool)
        ensures
            r == (bit_position < 4 && is_upper(self.spec_bytes()[bit_position as int])),
    {
        let b = self.bytes();
        if bit_position < 4 {
            byte_is_upper(b[bit_position])
        } else {
            false
        }
    }

    /// Valid, and byte 0 is uppercase.
    pub fn is_critical(&self) -> (r: bool)
        ensures
            r == self.spec_is_critical(),
    {
        self.is_valid() && self.set_bitness(0)
    }

    /// Valid, and byte 1 is uppercase.
    pub fn is_public(&self) -> (r: bool)
        ensures
            r == self.spec_is_public(),
    {
        self.is_valid() && self.set_bitness(1)
    }

    /// Valid, and byte 2 is uppercase.
    pub fn is_reserved_bit_valid(&self) -> (r: bool)
        ensures
            r == self.spec_is_reserved_bit_valid(),
    {
        self.is_valid() && self.set_bitness(2)
    }

    /// Valid, and byte 3 is lowercase.
    pub fn is_safe_to_copy(&self) -> (r: bool)
        ensures
            r == self.spec_is_safe_to_copy(),
    {
        self.is_valid() && !self.set_bitness(3)
    }
}

} // verus!
