//! A PNG file as a container: the signature, then chunks in their order.

use crate::bytes::{append_bytes, lemma_be_value_of_bytes};
use crate::chunk::{decoding, lemma_decoding_of_encoding, lemma_encoding_of_decoding};
use crate::chunk::{Chunk, ChunkView};
use crate::error::Error;
use vstd::prelude::*;
use vstd::slice::slice_subrange;
use vstd::string::*;
use vstd::utf8::encode_utf8;

verus! {

/// The eight bytes that every PNG file begins with.
pub const STANDARD_HEADER: [u8; 8] = [137, 80, 78, 71, 13, 10, 26, 10];

/// The eight bytes that every PNG file begins with.
pub open spec fn signature() -> Seq<u8> {
    seq![137u8, 80u8, 78u8, 71u8, 13u8, 10u8, 26u8, 10u8]
}

/// What each of `chunks` holds.
pub open spec fn views(chunks: Seq<Chunk>) -> Seq<ChunkView> {
    chunks.map_values(|c: Chunk| c@)
}

/// Every one of `chunks` is well-formed.
pub open spec fn all_wf(chunks: Seq<ChunkView>) -> bool {
    forall|i: int| 0 <= i < chunks.len() ==> (#[trigger] chunks[i]).wf()
}

/// The chunks in bytes, one behind the other.
pub open spec fn chunks_encoding(chunks: Seq<ChunkView>) -> Seq<u8>
    decreases chunks.len(),
{
    if chunks.len() == 0 {
        Seq::empty()
    } else {
        chunks[0].encoding() + chunks_encoding(chunks.drop_first())
    }
}

/// A container in bytes: the signature, then the chunks.
pub open spec fn container_encoding(chunks: Seq<ChunkView>) -> Seq<u8> {
    signature() + chunks_encoding(chunks)
}

/// The chunks that `bytes` hold one behind the other, up to the last byte, or
/// what the first chunk that cannot be read fails with.
pub open spec fn chunks_decoding(bytes: Seq<u8>) -> Result<Seq<ChunkView>, Error>
    decreases bytes.len(),
{
    if bytes.len() == 0 {
        Ok(Seq::empty())
    } else {
        match decoding(bytes) {
            Err(e) => Err(e),
            Ok(c) => {
                proof {
                    lemma_encoding_of_decoding(bytes);
                }
                match chunks_decoding(bytes.skip(12 + c.length)) {
                    Err(e) => Err(e),
                    Ok(rest) => Ok(seq![c] + rest),
                }
            },
        }
    }
}

/// The chunks of the container that `bytes` hold: the signature is checked,
/// then the chunks are read.
pub open spec fn container_decoding(bytes: Seq<u8>) -> Result<Seq<ChunkView>, Error> {
    if bytes.len() < 8 || bytes.subrange(0, 8) != signature() {
        Err(Error::BadSignature)
    } else {
        chunks_decoding(bytes.skip(8))
    }
}

/// The chunk at `i` has the type `t`, and none before it has.
pub open spec fn is_first_of_type(chunks: Seq<ChunkView>, t: Seq<u8>, i: int) -> bool {
    &&& 0 <= i < chunks.len()
    &&& chunks[i].chunk_type == t
    &&& forall|j: int| 0 <= j < i ==> (#[trigger] chunks[j]).chunk_type != t
}

/// Where the first chunk of the type `t` stands, if there is one.
pub open spec fn first_of_type(chunks: Seq<ChunkView>, t: Seq<u8>) -> Option<int> {
    if exists|i: int| is_first_of_type(chunks, t, i) {
        Some(choose|i: int| is_first_of_type(chunks, t, i))
    } else {
        None
    }
}

/// The descriptions of the chunks, in their order.
pub open spec fn chunks_text(chunks: Seq<ChunkView>) -> Seq<char>
    decreases chunks.len(),
{
    if chunks.len() == 0 {
        Seq::empty()
    } else {
        chunks_text(chunks.drop_last()) + chunks.last().text()
    }
}

/// The first chunk of a type stands in one place only.
pub proof fn lemma_first_of_type(chunks: Seq<ChunkView>, t: Seq<u8>, i: int)
    requires
        is_first_of_type(chunks, t, i),
    ensures
        first_of_type(chunks, t) == Some(i),
{
}

/// Where no chunk has the type, none is the first of it.
pub proof fn lemma_none_of_type(chunks: Seq<ChunkView>, t: Seq<u8>)
    requires
        forall|j: int| 0 <= j < chunks.len() ==> (#[trigger] chunks[j]).chunk_type != t,
    ensures
        first_of_type(chunks, t) is None,
{
}

/// A PNG file: its chunks, in the order in which the file holds them.
#[derive(Debug)]
pub struct Png {
    chunks: Vec<Chunk>,
}

impl View for Png {
    type V = Seq<ChunkView>;

    closed spec fn view(&self) -> Seq<ChunkView> {
        views(self.chunks@)
    }
}

/// Whether the type of `chunk` is made of the bytes `name`.
fn has_type(chunk: &Chunk, name: &[u8]) -> (r: bool)
    ensures
        r == (chunk@.chunk_type == name@),
{
    let t = chunk.chunk_type().bytes();
    if name.len() != 4 {
        return false;
    }
    let r: bool = t[0] == name[0] && t[1] == name[1] && t[2] == name[2] && t[3] == name[3];
    proof {
        if r {
            assert(chunk@.chunk_type =~= name@);
        }
    }
    r
}

impl Png {
    /// Makes a container of chunks.
    pub fn from_chunks(chunks: Vec<Chunk>) -> (r: Png)
        ensures
            r@ == views(chunks@),
    {
        Png { chunks }
    }

    /// Puts a chunk behind the others. Nothing keeps the end marker last:
    /// where it must be, the caller sees to it.
    pub fn append_chunk(&mut self, chunk: Chunk)
        ensures
            final(self)@ == old(self)@.push(chunk@),
    {
        self.chunks.push(chunk);
    }

    /// Where the first chunk stands whose type is made of the bytes of
    /// `chunk_type`.
    fn position(&self, chunk_type: &str) -> (r: Option<usize>)
        ensures
            r is Some <==> first_of_type(self@, encode_utf8(chunk_type@)) is Some,
            r matches Some(i) ==> i < self@.len() && first_of_type(
                self@,
                encode_utf8(chunk_type@),
            ) == Some(i as int),
            self@.len() == self.chunks@.len(),
    {
        let name = chunk_type.as_bytes();
        let mut i: usize = 0;
        while i < self.chunks.len()
            invariant
                i <= self.chunks@.len(),
                name@ == encode_utf8(chunk_type@),
                forall|j: int| 0 <= j < i ==> (#[trigger] self@[j]).chunk_type != name@,
            decreases self.chunks@.len() - i,
        {
            if has_type(&self.chunks[i], name) {
                proof {
                    lemma_first_of_type(self@, name@, i as int);
                }
                return Some(i);
            }
            i = i + 1;
        }
        proof {
            lemma_none_of_type(self@, name@);
        }
        None
    }

    /// Takes out the first chunk whose type is written as `chunk_type`, and
    /// returns it. Later chunks of that type stay.
    pub fn remove_first_chunk(&mut self, chunk_type: &str) -> (r: Result<Chunk, Error>)
        ensures
            match first_of_type(old(self)@, encode_utf8(chunk_type@)) {
                Some(i) => r is Ok && r->Ok_0@ == old(self)@[i] && final(self)@ == old(self)@.remove(
                    i,
                ),
                None => r == Err::<Chunk, Error>(Error::NotFound) && final(self)@ == old(self)@,
            },
    {
        match self.position(chunk_type) {
            Some(i) => {
                let chunk = self.chunks.remove(i);
                Ok(chunk)
            },
            None => Err(Error::NotFound),
        }
    }

    /// The signature of the file.
    pub fn header(&self) -> (r: &[u8; 8])
        ensures
            r@ == signature(),
    {
        &STANDARD_HEADER
    }

    /// The chunks of the file, in their order.
    pub fn chunks(&self) -> (r: &[Chunk])
        ensures
            views(r@) == self@,
    {
        self.chunks.as_slice()
    }

    /// The first chunk whose type is written as `chunk_type`.
    pub fn chunk_by_type(&self, chunk_type: &str) -> (r: Option<&Chunk>)
        ensures
            match first_of_type(self@, encode_utf8(chunk_type@)) {
                Some(i) => r is Some && r->0@ == self@[i],
                None => r is None,
            },
    {
        match self.position(chunk_type) {
            Some(i) => Some(&self.chunks[i]),
            None => None,
        }
    }

    /// The file in bytes: the signature, then each chunk in bytes.
    pub fn as_bytes(&self) -> (r: Vec<u8>)
        ensures
            r@ == container_encoding(self@),
    {
        let mut out: Vec<u8> = Vec::new();
        append_bytes(&mut out, STANDARD_HEADER.as_slice());
        let mut i: usize = 0;
        while i < self.chunks.len()
            invariant
                i <= self.chunks@.len(),
                self@.len() == self.chunks@.len(),
                out@ == signature() + chunks_encoding(self@.take(i as int)),
            decreases self.chunks@.len() - i,
        {
            let one = self.chunks[i].as_bytes();
            append_bytes(&mut out, one.as_slice());
            proof {
                lemma_chunks_encoding_push(self@.take(i as int), self@[i as int]);
                assert(self@.take(i as int).push(self@[i as int]) =~= self@.take(i + 1));
            }
            i = i + 1;
        }
        assert(self@.take(i as int) =~= self@);
        out
    }

    /// The description of every chunk, in their order.
    pub fn to_string(&self) -> (r: String)
        ensures
            r@ == chunks_text(self@),
    {
        let mut s = String::new();
        let mut i: usize = 0;
        while i < self.chunks.len()
            invariant
                i <= self.chunks@.len(),
                self@.len() == self.chunks@.len(),
                s@ == chunks_text(self@.take(i as int)),
            decreases self.chunks@.len() - i,
        {
            s.append(self.chunks[i].to_string().as_str());
            proof {
                assert(self@.take(i + 1).drop_last() =~= self@.take(i as int));
            }
            i = i + 1;
        }
        assert(self@.take(i as int) =~= self@);
        s
    }
}

/// What has been read, put before what the rest of the bytes gives.
spec fn read_so_far(done: Seq<ChunkView>, rest: Result<Seq<ChunkView>, Error>) -> Result<
    Seq<ChunkView>,
    Error,
> {
    match rest {
        Ok(more) => Ok(done + more),
        Err(e) => Err(e),
    }
}

impl<'a> TryFrom<&'a [u8]> for Png {
    type Error = Error;

    /// Reads a file: the signature, then chunk after chunk up to the last
    /// byte. One chunk that cannot be read fails the whole.
    fn try_from(bytes: &'a [u8]) -> (r: Result<Png, Error>)
        ensures
            container_decoding(bytes@) matches Ok(chunks) ==> r is Ok && r->Ok_0@ == chunks,
            container_decoding(bytes@) matches Err(e) ==> r == Err::<Png, Error>(e),
    {
        if bytes.len() < 8 {
            return Err(Error::BadSignature);
        }
        let mut k: usize = 0;
        while k < 8
            invariant
                k <= 8 <= bytes@.len(),
                bytes@.subrange(0, k as int) == signature().subrange(0, k as int),
            decreases 8 - k,
        {
            if bytes[k] != STANDARD_HEADER[k] {
                assert(bytes@.subrange(0, 8)[k as int] != signature()[k as int]);
                return Err(Error::BadSignature);
            }
            k = k + 1;
            assert(bytes@.subrange(0, k as int) =~= signature().subrange(0, k as int));
        }
        let mut chunks: Vec<Chunk> = Vec::new();
        let mut cursor: usize = 8;
        assert(bytes@.skip(8) =~= bytes@.skip(cursor as int));
        while cursor < bytes.len()
            invariant
                8 <= cursor <= bytes@.len(),
                bytes@.subrange(0, 8) == signature(),
                chunks_decoding(bytes@.skip(8)) == read_so_far(
                    views(chunks@),
                    chunks_decoding(bytes@.skip(cursor as int)),
                ),
            decreases bytes@.len() - cursor,
        {
            let rest = slice_subrange(bytes, cursor, bytes.len());
            assert(rest@ =~= bytes@.skip(cursor as int));
            match Chunk::try_from(rest) {
                Err(e) => {
                    return Err(e);
                },
                Ok(chunk) => {
                    proof {
                        lemma_encoding_of_decoding(rest@);
                    }
                    let ghost before = views(chunks@);
                    let ghost next = cursor + 12 + chunk@.length;
                    assert(rest@.skip(12 + chunk@.length) =~= bytes@.skip(next));
                    cursor = cursor + 12 + chunk.length() as usize;
                    chunks.push(chunk);
                    proof {
                        assert(views(chunks@) =~= before.push(chunk@));
                        let tail = chunks_decoding(bytes@.skip(next));
                        if let Ok(more) = tail {
                            assert(before + (seq![chunk@] + more) =~= before.push(chunk@) + more);
                        }
                    }
                },
            }
        }
        Ok(Png { chunks })
    }
}

/// What `try_from` returns is stated where it is defined, over
/// `container_decoding`. A `Png` owns buffers, which no specification can
/// make: so no specification function gives the result itself.
impl<'a> vstd::std_specs::convert::TryFromSpecImpl<&'a [u8]> for Png {
    open spec fn obeys_try_from_spec() -> bool {
        false
    }

    open spec fn try_from_spec(bytes: &'a [u8]) -> Result<Png, Error> {
        Err(Error::BadSignature)
    }
}

/// Chunks put behind chunks are written behind them.
pub proof fn lemma_chunks_encoding_add(front: Seq<ChunkView>, back: Seq<ChunkView>)
    ensures
        chunks_encoding(front + back) == chunks_encoding(front) + chunks_encoding(back),
    decreases front.len(),
{
    if front.len() > 0 {
        lemma_chunks_encoding_add(front.drop_first(), back);
        assert((front + back).drop_first() =~= front.drop_first() + back);
    }
}

/// A chunk put behind others is written behind them.
pub proof fn lemma_chunks_encoding_push(chunks: Seq<ChunkView>, chunk: ChunkView)
    ensures
        chunks_encoding(chunks.push(chunk)) == chunks_encoding(chunks) + chunk.encoding(),
{
    let one = seq![chunk];
    lemma_chunks_encoding_add(chunks, one);
    assert(chunks.push(chunk) =~= chunks + one);
    assert(chunks_encoding(one.drop_first()) =~= Seq::<u8>::empty());
}

/// What was written is read back: well-formed chunks are the chunks that
/// their bytes hold.
pub proof fn lemma_chunks_decoding_of_encoding(chunks: Seq<ChunkView>)
    requires
        all_wf(chunks),
    ensures
        chunks_decoding(chunks_encoding(chunks)) == Ok::<Seq<ChunkView>, Error>(chunks),
    decreases chunks.len(),
{
    if chunks.len() > 0 {
        let first = chunks[0];
        let rest = chunks.drop_first();
        let bytes = chunks_encoding(chunks);
        lemma_decoding_of_encoding(first, chunks_encoding(rest));
        lemma_chunks_decoding_of_encoding(rest);
        assert(bytes == first.encoding() + chunks_encoding(rest));
        assert(first.encoding().len() == 12 + first.length) by {
            lemma_be_value_of_bytes(first.length);
            lemma_be_value_of_bytes(first.crc);
        }
        assert(bytes.skip(12 + first.length) =~= chunks_encoding(rest));
        assert(seq![first] + rest =~= chunks);
    } else {
        assert(chunks =~= Seq::empty());
    }
}

/// A container of well-formed chunks, written and read, gives its chunks
/// again, each equal to what it was.
pub proof fn lemma_container_round_trip(chunks: Seq<ChunkView>)
    requires
        all_wf(chunks),
    ensures
        container_decoding(container_encoding(chunks)) == Ok::<Seq<ChunkView>, Error>(chunks),
{
    let bytes = container_encoding(chunks);
    assert(bytes.subrange(0, 8) =~= signature());
    assert(bytes.skip(8) =~= chunks_encoding(chunks));
    lemma_chunks_decoding_of_encoding(chunks);
}

/// What was read is well-formed, chunk by chunk, and is written as the bytes
/// it was read from.
pub proof fn lemma_chunks_encoding_of_decoding(bytes: Seq<u8>)
    ensures
        chunks_decoding(bytes) matches Ok(chunks) ==> all_wf(chunks) && chunks_encoding(chunks)
            == bytes,
    decreases bytes.len(),
{
    if let Ok(chunks) = chunks_decoding(bytes) {
        if bytes.len() > 0 {
            let first = decoding(bytes)->Ok_0;
            let tail = bytes.skip(12 + first.length);
            let rest = chunks_decoding(tail)->Ok_0;
            assert(decoding(bytes) is Ok && chunks_decoding(tail) is Ok && chunks == seq![first]
                + rest);
            lemma_encoding_of_decoding(bytes);
            lemma_chunks_encoding_of_decoding(tail);
            assert(chunks_encoding(chunks) == bytes) by {
                assert(chunks.drop_first() =~= rest);
                assert(bytes =~= bytes.take(12 + first.length) + tail);
            }
        } else {
            assert(bytes =~= Seq::empty());
        }
    }
}

/// A file that was read is written as it was, byte for byte, and each of
/// its chunks is well-formed.
pub proof fn lemma_container_encoding_of_decoding(bytes: Seq<u8>)
    ensures
        container_decoding(bytes) matches Ok(chunks) ==> all_wf(chunks) && container_encoding(
            chunks,
        ) == bytes,
{
    if let Ok(chunks) = container_decoding(bytes) {
        lemma_chunks_encoding_of_decoding(bytes.skip(8));
        assert(bytes =~= bytes.subrange(0, 8) + bytes.skip(8));
    }
}

/// A chunk put behind chunks of other types is the first of its type. Taken
/// out again, it leaves the chunks as they were, with none of its type.
pub proof fn lemma_append_find_remove(chunks: Seq<ChunkView>, chunk: ChunkView)
    requires
        first_of_type(chunks, chunk.chunk_type) is None,
    ensures
        first_of_type(chunks.push(chunk), chunk.chunk_type) == Some(chunks.len() as int),
        chunks.push(chunk)[chunks.len() as int] == chunk,
        chunks.push(chunk).remove(chunks.len() as int) == chunks,
{
    let t = chunk.chunk_type;
    let more = chunks.push(chunk);
    let n = chunks.len() as int;
    assert forall|j: int| 0 <= j < n implies (#[trigger] more[j]).chunk_type != t by {
        if chunks[j].chunk_type == t {
            lemma_some_of_type(chunks, t, j);
        }
    }
    lemma_first_of_type(more, t, n);
}

/// Where a chunk has the type, some chunk is the first of it.
pub proof fn lemma_some_of_type(chunks: Seq<ChunkView>, t: Seq<u8>, i: int)
    requires
        0 <= i < chunks.len(),
        chunks[i].chunk_type == t,
    ensures
        first_of_type(chunks, t) is Some,
        first_of_type(chunks, t)->0 <= i,
        is_first_of_type(chunks, t, first_of_type(chunks, t)->0),
    decreases i,
{
    if exists|j: int| 0 <= j < i && (#[trigger] chunks[j]).chunk_type == t {
        let j = choose|j: int| 0 <= j < i && (#[trigger] chunks[j]).chunk_type == t;
        lemma_some_of_type(chunks, t, j);
    } else {
        lemma_first_of_type(chunks, t, i);
    }
}

} // verus!
