//! The four commands, from the bytes of a file to the bytes or the text that
//! the command gives.

use crate::args::{DecodeArgs, EncodeArgs, PrintArgs, RemoveArgs};
use crate::chunk::{lemma_fresh_round_trip, Chunk, ChunkView};
use crate::chunk_types::{is_letter_char, is_type_bytes, is_type_text, text_bytes};
use crate::chunk_types::{type_of_text, ChunkType};
use crate::error::Error;
use crate::png::{all_wf, chunks_encoding, chunks_text, container_decoding, container_encoding};
use crate::png::{first_of_type, is_first_of_type, signature, Png};
use crate::png::{lemma_append_find_remove, lemma_container_encoding_of_decoding};
use crate::png::{lemma_chunks_encoding_add, lemma_chunks_encoding_push};
use crate::png::{lemma_container_round_trip, lemma_none_of_type, lemma_some_of_type};
use core::str::FromStr;
use vstd::prelude::*;
use vstd::slice::slice_to_vec;
use vstd::string::*;
use vstd::utf8::{decode_utf8, encode_utf8, valid_utf8};
use vstd::utf8::{encode_utf8_decode_utf8, encode_utf8_valid_utf8};
use vstd::utf8::{is_ascii_chars, is_ascii_chars_encode_utf8};

verus! {

/// The file that `encode` gives for the file `file`: the same chunks, and
/// behind them a new chunk of the type `chunk_type` that holds `message`.
pub open spec fn encoded(file: Seq<u8>, chunk_type: Seq<char>, message: Seq<char>) -> Result<
    Seq<u8>,
    Error,
> {
    match container_decoding(file) {
        Err(e) => Err(e),
        Ok(chunks) => match type_of_text(chunk_type) {
            Err(e) => Err(e),
            Ok(type_bytes) => Ok(
                container_encoding(
                    chunks.push(ChunkView::fresh(type_bytes, encode_utf8(message))),
                ),
            ),
        },
    }
}

/// The message that `decode` finds in the file `file`: the data, as text, of
/// the first chunk of the type `chunk_type`.
pub open spec fn decoded(file: Seq<u8>, chunk_type: Seq<char>) -> Result<Seq<char>, Error> {
    match container_decoding(file) {
        Err(e) => Err(e),
        Ok(chunks) => match first_of_type(chunks, encode_utf8(chunk_type)) {
            None => Err(Error::NotFound),
            Some(i) => if valid_utf8(chunks[i].data) {
                Ok(decode_utf8(chunks[i].data))
            } else {
                Err(Error::InvalidUtf8)
            },
        },
    }
}

/// The file that `remove` gives for the file `file`: the same chunks without
/// the first of the type `chunk_type`.
pub open spec fn removed(file: Seq<u8>, chunk_type: Seq<char>) -> Result<Seq<u8>, Error> {
    match container_decoding(file) {
        Err(e) => Err(e),
        Ok(chunks) => match first_of_type(chunks, encode_utf8(chunk_type)) {
            None => Err(Error::NotFound),
            Some(i) => Ok(container_encoding(chunks.remove(i))),
        },
    }
}

/// The text that `print` gives for the file `file`: the description of each
/// of its chunks.
pub open spec fn printed(file: Seq<u8>) -> Result<Seq<char>, Error> {
    match container_decoding(file) {
        Err(e) => Err(e),
        Ok(chunks) => Ok(chunks_text(chunks)),
    }
}

/// Runs the commands.
pub struct Commands;

impl Commands {
    /// Makes a runner of commands.
    pub fn new() -> Self {
        Commands {  }
    }

    /// Puts the message into a new chunk behind the chunks of the file, and
    /// gives the bytes of the file to write.
    pub fn encode(&self, args: EncodeArgs, file: &[u8]) -> (r: Result<Vec<u8>, Error>)
        ensures
            encoded(file@, args.chunk_type@, args.message@) matches Ok(out) ==> r is Ok
                && r->Ok_0@ == out,
            encoded(file@, args.chunk_type@, args.message@) matches Err(e) ==> r == Err::<
                Vec<u8>,
                Error,
            >(e),
    {
        let mut png_file = self.open_as_png(file)?;
        let new_chunk_type = match ChunkType::from_str(args.chunk_type.as_str()) {
            Ok(t) => t,
            Err(e) => {
                return Err(e);
            },
        };
        let byte_msg = args.message.as_str().as_bytes();
        let new_chunk = Chunk::new(new_chunk_type, slice_to_vec(byte_msg));
        png_file.append_chunk(new_chunk);
        Ok(png_file.as_bytes())
    }

    /// Gives the message that the first chunk of the type holds.
    pub fn decode(&self, args: DecodeArgs, file: &[u8]) -> (r: Result<String, Error>)
        ensures
            decoded(file@, args.chunk_type@) matches Ok(text) ==> r is Ok && r->Ok_0@ == text,
            decoded(file@, args.chunk_type@) matches Err(e) ==> r == Err::<String, Error>(e),
    {
        let png_file = self.open_as_png(file)?;
        match png_file.chunk_by_type(args.chunk_type.as_str()) {
            None => Err(Error::NotFound),
            Some(chunk) => chunk.data_as_string(),
        }
    }

    /// Takes the first chunk of the type out of the file, and gives the bytes
    /// of the file to write.
    pub fn remove(&self, args: RemoveArgs, file: &[u8]) -> (r: Result<Vec<u8>, Error>)
        ensures
            removed(file@, args.chunk_type@) matches Ok(out) ==> r is Ok && r->Ok_0@ == out,
            removed(file@, args.chunk_type@) matches Err(e) ==> r == Err::<Vec<u8>, Error>(e),
    {
        let mut png_file = self.open_as_png(file)?;
        match png_file.remove_first_chunk(args.chunk_type.as_str()) {
            Ok(_) => Ok(png_file.as_bytes()),
            Err(e) => Err(e),
        }
    }

    /// Gives the description of every chunk of the file.
    pub fn print(&self, args: PrintArgs, file: &[u8]) -> (r: Result<String, Error>)
        ensures
            printed(file@) matches Ok(text) ==> r is Ok && r->Ok_0@ == text,
            printed(file@) matches Err(e) ==> r == Err::<String, Error>(e),
    {
        let png_file = self.open_as_png(file)?;
        Ok(png_file.to_string())
    }

    /// Reads the bytes of a file as a PNG file.
    fn open_as_png(&self, raw_file: &[u8]) -> (r: Result<Png, Error>)
        ensures
            container_decoding(raw_file@) matches Ok(chunks) ==> r is Ok && r->Ok_0@ == chunks,
            container_decoding(raw_file@) matches Err(e) ==> r == Err::<Png, Error>(e),
    {
        Png::try_from(raw_file)
    }
}

/// A message that was put into a file is found there: where the file had no
/// chunk of the type, and the length field can count the bytes of the
/// message, `decode` gives from the new file the message that `encode` was
/// given, and `remove` gives the old file from it.
pub proof fn lemma_decode_after_encode(file: Seq<u8>, chunk_type: Seq<char>, message: Seq<char>)
    requires
        container_decoding(file) is Ok,
        first_of_type(container_decoding(file)->Ok_0, encode_utf8(chunk_type)) is None,
        is_type_text(chunk_type),
        encode_utf8(message).len() <= u32::MAX,
    ensures
        encoded(file, chunk_type, message) is Ok,
        decoded(encoded(file, chunk_type, message)->Ok_0, chunk_type) == Ok::<Seq<char>, Error>(
            message,
        ),
        removed(encoded(file, chunk_type, message)->Ok_0, chunk_type) == Ok::<Seq<u8>, Error>(
            file,
        ),
{
    let chunks = container_decoding(file)->Ok_0;
    let name = encode_utf8(chunk_type);
    let data = encode_utf8(message);
    is_ascii_chars_encode_utf8(chunk_type);
    assert(name =~= text_bytes(chunk_type));
    assert(is_type_bytes(name));
    let chunk = ChunkView::fresh(name, data);
    lemma_fresh_round_trip(name, data);
    let more = chunks.push(chunk);
    lemma_container_encoding_of_decoding(file);
    lemma_container_round_trip(more);
    lemma_append_find_remove(chunks, chunk);
    encode_utf8_valid_utf8(message);
    encode_utf8_decode_utf8(message);
}

/// `encode` leaves every byte of the file where it was, and writes the new
/// chunk behind them.
pub proof fn lemma_encode_appends(file: Seq<u8>, chunk_type: Seq<char>, message: Seq<char>)
    requires
        encoded(file, chunk_type, message) is Ok,
    ensures
        type_of_text(chunk_type) is Ok,
        encoded(file, chunk_type, message)->Ok_0 == file + ChunkView::fresh(
            type_of_text(chunk_type)->Ok_0,
            encode_utf8(message),
        ).encoding(),
{
    let chunks = container_decoding(file)->Ok_0;
    let chunk = ChunkView::fresh(type_of_text(chunk_type)->Ok_0, encode_utf8(message));
    lemma_container_encoding_of_decoding(file);
    lemma_chunks_encoding_push(chunks, chunk);
}

/// `remove` cuts the bytes of one chunk out of the file, those of the first
/// chunk of the type, and leaves every other byte where it was.
pub proof fn lemma_remove_cuts(file: Seq<u8>, chunk_type: Seq<char>)
    requires
        removed(file, chunk_type) is Ok,
    ensures
        ({
            let chunks = container_decoding(file)->Ok_0;
            let i = first_of_type(chunks, encode_utf8(chunk_type))->0;
            let at = 8 + chunks_encoding(chunks.take(i)).len() as int;
            let n = chunks[i].encoding().len() as int;
            &&& is_first_of_type(chunks, encode_utf8(chunk_type), i)
            &&& at + n <= file.len()
            &&& file.subrange(at, at + n) == chunks[i].encoding()
            &&& removed(file, chunk_type)->Ok_0 == file.take(at) + file.skip(at + n)
        }),
{
    let chunks = container_decoding(file)->Ok_0;
    let t = encode_utf8(chunk_type);
    let i = first_of_type(chunks, t)->0;
    let front = chunks.take(i);
    let back = chunks.skip(i + 1);
    lemma_container_encoding_of_decoding(file);
    assert(chunks =~= front.push(chunks[i]) + back);
    assert(chunks.remove(i) =~= front + back);
    lemma_chunks_encoding_add(front.push(chunks[i]), back);
    lemma_chunks_encoding_push(front, chunks[i]);
    lemma_chunks_encoding_add(front, back);
    assert(file =~= signature() + chunks_encoding(front) + chunks[i].encoding() + chunks_encoding(
        back,
    ));
}

/// A message is not found where no chunk has the type: `decode` of a file
/// that can be read fails with `NotFound` when none of its chunks has the
/// type, and only then.
pub proof fn lemma_decode_absent(file: Seq<u8>, chunk_type: Seq<char>)
    requires
        container_decoding(file) is Ok,
    ensures
        decoded(file, chunk_type) == Err::<Seq<char>, Error>(Error::NotFound) <==> (forall|
            i: int,
        |
            0 <= i < container_decoding(file)->Ok_0.len() ==> (
            #[trigger] container_decoding(file)->Ok_0[i]).chunk_type != encode_utf8(chunk_type)),
{
    let chunks = container_decoding(file)->Ok_0;
    let t = encode_utf8(chunk_type);
    if forall|i: int| 0 <= i < chunks.len() ==> (#[trigger] chunks[i]).chunk_type != t {
        lemma_none_of_type(chunks, t);
    } else {
        let i = choose|i: int| 0 <= i < chunks.len() && (#[trigger] chunks[i]).chunk_type == t;
        lemma_some_of_type(chunks, t, i);
    }
}

} // verus!
