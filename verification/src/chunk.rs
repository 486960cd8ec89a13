//! A chunk: a record of a length, a type, data and a checksum over type and
//! data, and its form in bytes.

use crate::bytes::{append_bytes, be_bytes, be_value, u32_from_be, u32_to_be};
use crate::bytes::{lemma_be_bytes_of_value, lemma_be_value_of_bytes};
use crate::checksum::{checksum, crc32_iso_hdlc};
use crate::chunk_types::{is_type_bytes, ChunkType};
use crate::error::Error;
use crate::text::{ascii_text, decimal_string, decimal_text, utf8_text};
use vstd::prelude::*;
use vstd::slice::{slice_subrange, slice_to_vec};
use vstd::string::*;
use vstd::utf8::{decode_utf8, valid_utf8};

verus! {

/// What a chunk holds.
pub struct ChunkView {
    /// The length field: the number of data bytes in a well-formed chunk.
    pub length: u32,
    /// The four bytes of the type.
    pub chunk_type: Seq<u8>,
    /// The data.
    pub data: Seq<u8>,
    /// The checksum field.
    pub crc: u32,
}

impl ChunkView {
    /// The type is four ASCII bytes, the length field counts the data, and the
    /// checksum field is the checksum of type and data.
    pub open spec fn wf(self) -> bool {
        &&& is_type_bytes(self.chunk_type)
        &&& self.length == self.data.len()
        &&& self.crc == crc32_iso_hdlc(self.chunk_type + self.data)
    }

    /// The chunk that is made of a type and data: its checksum is computed,
    /// and its length field holds the low 32 bits of the number of data bytes.
    pub open spec fn fresh(chunk_type: Seq<u8>, data: Seq<u8>) -> ChunkView {
        ChunkView {
            length: (data.len() % 0x1_0000_0000) as u32,
            chunk_type,
            data,
            crc: crc32_iso_hdlc(chunk_type + data),
        }
    }

    /// The chunk in bytes: length, type, data, checksum, the two numbers in
    /// big-endian order.
    pub open spec fn encoding(self) -> Seq<u8> {
        be_bytes(self.length) + self.chunk_type + self.data + be_bytes(self.crc)
    }

    /// The lines that describe the chunk to a reader.
    pub open spec fn text(self) -> Seq<char> {
        "Chunk {\n  Length: "@ + decimal_text(self.length as nat) + "\n  Type: "@ + ascii_text(
            self.chunk_type,
        ) + "\n  Data: "@ + decimal_text(self.data.len()) + " bytes\n  Crc: "@ + decimal_text(
            self.crc as nat,
        ) + "\n}\n"@
    }
}

/// The chunk at the start of `bytes`, or why there is none. The record is
/// framed by its length field; then the checksum is compared, then the type
/// is checked.
#[verifier::opaque]
pub open spec fn decoding(bytes: Seq<u8>) -> Result<ChunkView, Error> {
    if bytes.len() < 12 {
        Err(Error::OutOfBounds)
    } else {
        let length = be_value(bytes.subrange(0, 4));
        if bytes.len() < 12 + length {
            Err(Error::OutOfBounds)
        } else {
            let chunk_type = bytes.subrange(4, 8);
            let data = bytes.subrange(8, 8 + length);
            let crc = be_value(bytes.subrange(8 + length, 12 + length));
            if crc != crc32_iso_hdlc(chunk_type + data) {
                Err(Error::CrcMismatch)
            } else if !is_type_bytes(chunk_type) {
                Err(Error::NotAscii)
            } else {
                Ok(ChunkView { length, chunk_type, data, crc })
            }
        }
    }
}

/// A PNG chunk.
#[derive(Debug)]
pub struct Chunk {
    length: u32,
    chunk_type: ChunkType,
    chunk_data: Vec<u8>,
    crc: u32,
}

impl View for Chunk {
    type V = ChunkView;

    closed spec fn view(&self) -> ChunkView {
        ChunkView {
            length: self.length,
            chunk_type: self.chunk_type@,
            data: self.chunk_data@,
            crc: self.crc,
        }
    }
}

impl Clone for Chunk {
    fn clone(&self) -> (r: Chunk)
        ensures
            r@ == self@,
    {
        proof {
            use_type_invariant(self);
        }
        Chunk {
            length: self.length,
            chunk_type: self.chunk_type.clone(),
            chunk_data: slice_to_vec(self.chunk_data.as_slice()),
            crc: self.crc,
        }
    }
}

/// Type, then data, in one buffer.
fn checked_buffer(type_bytes: &[u8; 4], data: &[u8]) -> (r: Vec<u8>)
    ensures
        r@ == type_bytes@ + data@,
{
    let mut to_check: Vec<u8> = Vec::new();
    append_bytes(&mut to_check, type_bytes.as_slice());
    append_bytes(&mut to_check, data);
    to_check
}

impl Chunk {
    /// What holds of every chunk: the length field holds the low 32 bits of
    /// the number of data bytes, which is that number wherever four bytes can
    /// hold it.
    #[verifier::type_invariant]
    pub open spec fn inv(self) -> bool {
        self@.length == self@.data.len() % 0x1_0000_0000
    }

    /// Makes a chunk of a type and data, with the checksum of the two.
    pub fn new(c_type: ChunkType, data: Vec<u8>) -> (c: Chunk)
        ensures
            c@ == ChunkView::fresh(c_type@, data@),
            is_type_bytes(c_type@),
            data@.len() <= u32::MAX ==> c@.wf(),
    {
        let type_bytes = c_type.bytes();
        let to_check = checked_buffer(&type_bytes, data.as_slice());
        let crc = checksum(to_check.as_slice());
        Chunk::with_crc(c_type, data, crc)
    }

    /// Makes a chunk of a type, data and a checksum, which is stored as it is
    /// given.
    pub fn with_crc(c_type: ChunkType, data: Vec<u8>, crc: u32) -> (c: Chunk)
        ensures
            c@ == (ChunkView {
                length: (data@.len() % 0x1_0000_0000) as u32,
                chunk_type: c_type@,
                data: data@,
                crc,
            }),
    {
        let n: u64 = data.len() as u64;
        let length: u32 = (n % 0x1_0000_0000) as u32;
        Chunk { length, chunk_type: c_type, chunk_data: data, crc }
    }

    /// Makes a chunk of the type, the data and the checksum of a record, given
    /// the checksum `computed` of its type and data: the record is refused if
    /// the checksum that it stores is another one, and else if its type is not
    /// ASCII.
    pub fn from_parts(type_bytes: [u8; 4], data: Vec<u8>, stored: u32, computed: u32) -> (r: Result<
        Chunk,
        Error,
    >)
        ensures
            stored != computed ==> r == Err::<Chunk, Error>(Error::CrcMismatch),
            stored == computed && !is_type_bytes(type_bytes@) ==> r == Err::<Chunk, Error>(
                Error::NotAscii,
            ),
            stored == computed && is_type_bytes(type_bytes@) ==> r is Ok && r->Ok_0@ == (ChunkView {
                length: (data@.len() % 0x1_0000_0000) as u32,
                chunk_type: type_bytes@,
                data: data@,
                crc: stored,
            }),
    {
        if stored != computed {
            return Err(Error::CrcMismatch);
        }
        match ChunkType::try_from(type_bytes) {
            Ok(chunk_type) => Ok(Chunk::with_crc(chunk_type, data, stored)),
            Err(e) => Err(e),
        }
    }

    /// The length field of this chunk: the number of its data bytes, as far
    /// as four bytes can hold it.
    pub fn length(&self) -> (r: u32)
        ensures
            r == self@.length,
            r == self@.data.len() % 0x1_0000_0000,
    {
        proof {
            use_type_invariant(self);
        }
        self.length
    }

    /// The type of this chunk.
    pub fn chunk_type(&self) -> (r: &ChunkType)
        ensures
            r@ == self@.chunk_type,
            is_type_bytes(self@.chunk_type),
    {
        proof {
            use_type_invariant(&self.chunk_type);
        }
        &self.chunk_type
    }

    /// The data of this chunk.
    pub fn data(&self) -> (r: &[u8])
        ensures
            r@ == self@.data,
    {
        self.chunk_data.as_slice()
    }

    /// The checksum field of this chunk.
    pub fn crc(&self) -> (r: u32)
        ensures
            r == self@.crc,
    {
        self.crc
    }

    /// The data of this chunk as text, if it is UTF-8.
    pub fn data_as_string(&self) -> (r: Result<String, Error>)
        ensures
            r is Ok <==> valid_utf8(self@.data),
            r matches Ok(s) ==> s@ == decode_utf8(self@.data),
            r matches Err(e) ==> e == Error::InvalidUtf8,
    {
        match utf8_text(slice_to_vec(self.chunk_data.as_slice())) {
            Some(s) => Ok(s),
            None => Err(Error::InvalidUtf8),
        }
    }

    /// This chunk in bytes: the length in four bytes, the type, the data, and
    /// the checksum in four bytes.
    pub fn as_bytes(&self) -> (r: Vec<u8>)
        ensures
            r@ == self@.encoding(),
    {
        let mut data: Vec<u8> = Vec::new();
        let len_bytes: [u8; 4] = u32_to_be(self.length);
        let c_t_bytes: [u8; 4] = self.chunk_type.bytes();
        let crc_bytes: [u8; 4] = u32_to_be(self.crc);
        append_bytes(&mut data, len_bytes.as_slice());
        append_bytes(&mut data, c_t_bytes.as_slice());
        append_bytes(&mut data, self.chunk_data.as_slice());
        append_bytes(&mut data, crc_bytes.as_slice());
        data
    }

    /// The lines that describe this chunk to a reader.
    pub fn to_string(&self) -> (r: String)
        ensures
            r@ == self@.text(),
    {
        let mut s = String::from_str("Chunk {\n  Length: ");
        s.append(decimal_string(self.length as u64).as_str());
        s.append("\n  Type: ");
        s.append(self.chunk_type.to_string().as_str());
        s.append("\n  Data: ");
        s.append(decimal_string(self.chunk_data.len() as u64).as_str());
        s.append(" bytes\n  Crc: ");
        s.append(decimal_string(self.crc as u64).as_str());
        s.append("\n}\n");
        s
    }
}

impl<'a> TryFrom<&'a [u8]> for Chunk {
    type Error = Error;

    /// Reads the chunk at the start of `bytes`; what follows it is not looked
    /// at.
    fn try_from(bytes: &'a [u8]) -> (r: Result<Chunk, Error>)
        ensures
            decoding(bytes@) matches Ok(v) ==> r is Ok && r->Ok_0@ == v,
            decoding(bytes@) matches Err(e) ==> r == Err::<Chunk, Error>(e),
    {
        proof {
            reveal(decoding);
        }
        if bytes.len() < 12 {
            return Err(Error::OutOfBounds);
        }
        let len: u32 = u32_from_be(bytes, 0);
        if bytes.len() - 12 < len as usize {
            return Err(Error::OutOfBounds);
        }
        let chunk_type_array: [u8; 4] = [bytes[4], bytes[5], bytes[6], bytes[7]];
        let final_data_loc: usize = (len as usize) + 8;
        let chunk_data_bytes = slice_subrange(bytes, 8, final_data_loc);
        let crc: u32 = u32_from_be(bytes, final_data_loc);
        let to_check = checked_buffer(&chunk_type_array, chunk_data_bytes);
        let crc_check = checksum(to_check.as_slice());
        assert(chunk_type_array@ =~= bytes@.subrange(4, 8));
        Chunk::from_parts(chunk_type_array, slice_to_vec(chunk_data_bytes), crc, crc_check)
    }
}

/// What `try_from` returns is stated where it is defined, over `decoding`. A
/// `Chunk` owns a buffer, which no specification can make: so no
/// specification function gives the result itself.
impl<'a> vstd::std_specs::convert::TryFromSpecImpl<&'a [u8]> for Chunk {
    open spec fn obeys_try_from_spec() -> bool {
        false
    }

    open spec fn try_from_spec(bytes: &'a [u8]) -> Result<Chunk, Error> {
        Err(Error::OutOfBounds)
    }
}

/// What was written is read back: a well-formed chunk is the chunk at the
/// start of its bytes, whatever follows them.
pub proof fn lemma_decoding_of_encoding(v: ChunkView, rest: Seq<u8>)
    requires
        v.wf(),
    ensures
        decoding(v.encoding() + rest) == Ok::<ChunkView, Error>(v),
{
    reveal(decoding);
    let bytes = v.encoding() + rest;
    let n = v.length as int;
    lemma_be_value_of_bytes(v.length);
    lemma_be_value_of_bytes(v.crc);
    assert(bytes.subrange(0, 4) =~= be_bytes(v.length));
    assert(bytes.subrange(4, 8) =~= v.chunk_type);
    assert(bytes.subrange(8, 8 + n) =~= v.data);
    assert(bytes.subrange(8 + n, 12 + n) =~= be_bytes(v.crc));
}

/// A chunk that is made of a type and of data that the length field can
/// count is well-formed, and is read back from its bytes.
pub proof fn lemma_fresh_round_trip(chunk_type: Seq<u8>, data: Seq<u8>)
    requires
        is_type_bytes(chunk_type),
        data.len() <= u32::MAX,
    ensures
        ChunkView::fresh(chunk_type, data).wf(),
        decoding(ChunkView::fresh(chunk_type, data).encoding()) == Ok::<ChunkView, Error>(
            ChunkView::fresh(chunk_type, data),
        ),
{
    let v = ChunkView::fresh(chunk_type, data);
    lemma_decoding_of_encoding(v, Seq::empty());
}

/// What was read is well-formed, and is written as the bytes it was read
/// from.
pub proof fn lemma_encoding_of_decoding(bytes: Seq<u8>)
    ensures
        decoding(bytes) matches Ok(v) ==> v.wf() && 12 + v.length <= bytes.len() && v.encoding()
            == bytes.take(12 + v.length),
{
    reveal(decoding);
    if let Ok(v) = decoding(bytes) {
        let n = v.length as int;
        lemma_be_bytes_of_value(bytes.subrange(0, 4));
        lemma_be_bytes_of_value(bytes.subrange(8 + n, 12 + n));
        assert(v.encoding() =~= bytes.take(12 + n));
    }
}

/// A record whose type or data were changed after the checksum was stored is
/// refused for its checksum, whatever follows it, unless the changed bytes
/// have the checksum that was stored; then it is read as it stands, if its
/// type is ASCII.
pub proof fn lemma_decoding_of_changed_record(
    v: ChunkView,
    chunk_type: Seq<u8>,
    data: Seq<u8>,
    rest: Seq<u8>,
)
    requires
        v.wf(),
        chunk_type.len() == 4,
        data.len() == v.data.len(),
    ensures
        decoding((ChunkView { length: v.length, chunk_type, data, crc: v.crc }).encoding() + rest)
            == (if crc32_iso_hdlc(chunk_type + data) != v.crc {
            Err::<ChunkView, Error>(Error::CrcMismatch)
        } else if !is_type_bytes(chunk_type) {
            Err::<ChunkView, Error>(Error::NotAscii)
        } else {
            Ok::<ChunkView, Error>(ChunkView { length: v.length, chunk_type, data, crc: v.crc })
        }),
{
    reveal(decoding);
    let changed = ChunkView { length: v.length, chunk_type, data, crc: v.crc };
    let bytes = changed.encoding() + rest;
    let n = v.length as int;
    lemma_be_value_of_bytes(v.length);
    lemma_be_value_of_bytes(v.crc);
    assert(bytes.subrange(0, 4) =~= be_bytes(v.length));
    assert(bytes.subrange(4, 8) =~= chunk_type);
    assert(bytes.subrange(8, 8 + n) =~= data);
    assert(bytes.subrange(8 + n, 12 + n) =~= be_bytes(v.crc));
}

} // verus!
