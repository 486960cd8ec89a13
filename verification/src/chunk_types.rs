//! The four-byte type of a chunk, and the properties that the case of its
//! letters encodes.

use crate::error::Error;
use crate::text::{ascii_string, ascii_text};
use vstd::prelude::*;
use vstd::string::*;
use vstd::utf8::*;

verus! {

/// `A` to `Z`.
pub open spec fn is_upper(b: u8) -> bool {
    65 <= b <= 90
}

/// `a` to `z`.
pub open spec fn is_lower(b: u8) -> bool {
    97 <= b <= 122
}

/// An ASCII letter of either case.
pub open spec fn is_letter(b: u8) -> bool {
    is_upper(b) || is_lower(b)
}

/// Four bytes, all of them ASCII: what every `ChunkType` holds.
pub open spec fn is_type_bytes(s: Seq<u8>) -> bool {
    &&& s.len() == 4
    &&& forall|i: int| 0 <= i < 4 ==> s[i] < 128
}

/// A character that is an ASCII letter of either case.
pub open spec fn is_letter_char(c: char) -> bool {
    ('A' <= c <= 'Z') || ('a' <= c <= 'z')
}

/// Four characters, all of them ASCII letters: the strings that name a chunk
/// type.
pub open spec fn is_type_text(s: Seq<char>) -> bool {
    &&& s.len() == 4
    &&& forall|i: int| 0 <= i < 4 ==> is_letter_char(#[trigger] s[i])
}

/// The bytes of the characters of `s`, one for each.
pub open spec fn text_bytes(s: Seq<char>) -> Seq<u8> {
    Seq::new(s.len(), |i: int| s[i] as u8)
}

/// The bytes of the chunk type that the string `s` names, or why it names
/// none: a string whose UTF-8 encoding is not four bytes long has the wrong
/// length, any other string that is refused holds a character that is no
/// letter.
pub open spec fn type_of_text(s: Seq<char>) -> Result<Seq<u8>, Error> {
    if is_type_text(s) {
        Ok(text_bytes(s))
    } else if encode_utf8(s).len() != 4 {
        Err(Error::InvalidLength)
    } else {
        Err(Error::NotAlphabetic)
    }
}

/// A validated PNG chunk type: four ASCII bytes. The case of each byte, where
/// it is a letter, is a property of the chunk.
#[derive(Debug)]
pub struct ChunkType {
    chunk_bytes: [u8; 4],
}

impl View for ChunkType {
    type V = Seq<u8>;

    closed spec fn view(&self) -> Seq<u8> {
        self.chunk_bytes@
    }
}

impl Clone for ChunkType {
    fn clone(&self) -> (r: ChunkType)
        ensures
            r == *self,
    {
        proof {
            use_type_invariant(self);
        }
        ChunkType { chunk_bytes: self.chunk_bytes }
    }
}

impl PartialEq for ChunkType {
    /// Two chunk types are equal when their bytes are.
    fn eq(&self, other: &ChunkType) -> (r: bool) {
        let same: bool = self.chunk_bytes[0] == other.chunk_bytes[0] && self.chunk_bytes[1]
            == other.chunk_bytes[1] && self.chunk_bytes[2] == other.chunk_bytes[2]
            && self.chunk_bytes[3] == other.chunk_bytes[3];
        proof {
            if same {
                assert(self@ =~= other@);
            }
        }
        same
    }
}

impl Eq for ChunkType {

}

impl vstd::std_specs::cmp::PartialEqSpecImpl for ChunkType {
    open spec fn obeys_eq_spec() -> bool {
        true
    }

    open spec fn eq_spec(&self, other: &ChunkType) -> bool {
        self@ == other@
    }
}

impl TryFrom<[u8; 4]> for ChunkType {
    type Error = Error;

    /// Takes four bytes as a chunk type, if all of them are ASCII.
    fn try_from(bytes: [u8; 4]) -> (r: Result<ChunkType, Error>)
        ensures
            r is Ok <==> is_type_bytes(bytes@),
            r matches Ok(t) ==> t@ == bytes@,
            r matches Err(e) ==> e == Error::NotAscii,
    {
        if bytes[0] < 128 && bytes[1] < 128 && bytes[2] < 128 && bytes[3] < 128 {
            Ok(ChunkType { chunk_bytes: bytes })
        } else {
            Err(Error::NotAscii)
        }
    }
}

impl vstd::std_specs::convert::TryFromSpecImpl<[u8; 4]> for ChunkType {
    open spec fn obeys_try_from_spec() -> bool {
        true
    }

    closed spec fn try_from_spec(bytes: [u8; 4]) -> Result<ChunkType, Error> {
        if is_type_bytes(bytes@) {
            Ok(ChunkType { chunk_bytes: bytes })
        } else {
            Err(Error::NotAscii)
        }
    }
}

impl core::str::FromStr for ChunkType {
    type Err = Error;

    /// Takes a string of four ASCII letters as a chunk type, and no other
    /// string.
    fn from_str(s: &str) -> (r: Result<ChunkType, Error>)
        ensures
            r is Ok <==> is_type_text(s@),
            type_of_text(s@) matches Ok(bytes) ==> r is Ok && r->Ok_0@ == bytes,
            type_of_text(s@) matches Err(e) ==> r == Err::<ChunkType, Error>(e),
    {
        proof {
            if is_type_text(s@) {
                is_ascii_chars_encode_utf8(s@);
            }
        }
        let b = s.as_bytes();
        if b.len() != 4 {
            return Err(Error::InvalidLength);
        }
        if !s.is_ascii() {
            return Err(Error::NotAlphabetic);
        }
        proof {
            is_ascii_chars_encode_utf8(s@);
        }
        let s_bytes: [u8; 4] = [b[0], b[1], b[2], b[3]];
        if letter(s_bytes[0]) && letter(s_bytes[1]) && letter(s_bytes[2]) && letter(s_bytes[3]) {
            assert(s_bytes@ =~= text_bytes(s@));
            Ok(ChunkType { chunk_bytes: s_bytes })
        } else {
            Err(Error::NotAlphabetic)
        }
    }
}

/// Whether `b` is an ASCII letter.
fn letter(b: u8) -> (r: bool)
    ensures
        r == is_letter(b),
{
    (b >= 65 && b <= 90) || (b >= 97 && b <= 122)
}

/// Whether `b` is an upper-case ASCII letter.
fn upper(b: u8) -> (r: bool)
    ensures
        r == is_upper(b),
{
    b >= 65 && b <= 90
}

impl ChunkType {
    /// What holds of every chunk type: its bytes are four, and ASCII.
    #[verifier::type_invariant]
    pub open spec fn inv(self) -> bool {
        is_type_bytes(self@)
    }

    /// The four bytes of this chunk type.
    pub fn bytes(&self) -> (r: [u8; 4])
        ensures
            r@ == self@,
            is_type_bytes(self@),
    {
        proof {
            use_type_invariant(self);
        }
        self.chunk_bytes
    }

    /// Whether the chunk is critical: the first byte is an upper-case letter.
    pub fn is_critical(&self) -> (r: bool)
        ensures
            r == is_upper(self@[0]),
    {
        upper(self.chunk_bytes[0])
    }

    /// Whether the chunk is public: the second byte is an upper-case letter.
    pub fn is_public(&self) -> (r: bool)
        ensures
            r == is_upper(self@[1]),
    {
        upper(self.chunk_bytes[1])
    }

    /// Whether the reserved bit is as it must be: the third byte is an
    /// upper-case letter.
    pub fn is_reserved_bit_valid(&self) -> (r: bool)
        ensures
            r == is_upper(self@[2]),
    {
        upper(self.chunk_bytes[2])
    }

    /// Whether the chunk may be copied by a program that does not know it: the
    /// fourth byte is a lower-case letter.
    pub fn is_safe_to_copy(&self) -> (r: bool)
        ensures
            r == is_lower(self@[3]),
    {
        let b: u8 = self.chunk_bytes[3];
        b >= 97 && b <= 122
    }

    /// Whether the reserved bit is valid and all four bytes are letters.
    pub fn is_valid(&self) -> (r: bool)
        ensures
            r == (is_upper(self@[2]) && forall|i: int| 0 <= i < 4 ==> is_letter(self@[i])),
    {
        self.is_reserved_bit_valid() && self.is_valid_byte()
    }

    /// Whether all four bytes are letters, `A` to `Z` or `a` to `z`.
    fn is_valid_byte(&self) -> (r: bool)
        ensures
            r == (forall|i: int| 0 <= i < 4 ==> is_letter(self@[i])),
    {
        let r: bool = letter(self.chunk_bytes[0]) && letter(self.chunk_bytes[1]) && letter(
            self.chunk_bytes[2],
        ) && letter(self.chunk_bytes[3]);
        proof {
            if !r {
                assert(!is_letter(self@[0]) || !is_letter(self@[1]) || !is_letter(self@[2])
                    || !is_letter(self@[3]));
            }
        }
        r
    }

    /// The chunk type as a string of four characters.
    pub fn to_string(&self) -> (r: String)
        ensures
            r@ == ascii_text(self@),
    {
        proof {
            use_type_invariant(self);
        }
        ascii_string(self.chunk_bytes.as_slice())
    }
}

} // verus!
