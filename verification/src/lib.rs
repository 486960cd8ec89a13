//! Reading, checking, changing and writing back the chunk structure of a PNG
//! file, so that a text message can be kept in a chunk of its own.
//!
//! A file is a [`png::Png`], a sequence of [`chunk::Chunk`]s, each with a
//! [`chunk_types::ChunkType`]. The [`commands`] go from the bytes of a file to
//! the bytes or the text that a command gives; reading and writing the file is
//! left to the caller. The module [`counter`] is the model of the small window
//! that comes with the command line.

pub mod args;
pub mod bytes;
pub mod checksum;
pub mod chunk;
pub mod chunk_types;
pub mod commands;
pub mod counter;
pub mod error;
pub mod png;
pub mod text;

pub use commands::Commands;
pub use error::Error;

use args::{DecodeArgs, EncodeArgs, PrintArgs, RemoveArgs};
use commands::{decoded, encoded, printed, removed};
use vstd::prelude::*;

verus! {

/// `Commands::decode`, by a runner made for the call.
pub fn decode_with_args(args: DecodeArgs, file: &[u8]) -> (r: Result<String, Error>)
    ensures
        decoded(file@, args.chunk_type@) matches Ok(text) ==> r is Ok && r->Ok_0@ == text,
        decoded(file@, args.chunk_type@) matches Err(e) ==> r == Err::<String, Error>(e),
{
    let runner = Commands::new();
    runner.decode(args, file)
}

/// `Commands::encode`, by a runner made for the call.
pub fn encode_with_args(args: EncodeArgs, file: &[u8]) -> (r: Result<Vec<u8>, Error>)
    ensures
        encoded(file@, args.chunk_type@, args.message@) matches Ok(out) ==> r is Ok && r->Ok_0@
            == out,
        encoded(file@, args.chunk_type@, args.message@) matches Err(e) ==> r == Err::<
            Vec<u8>,
            Error,
        >(e),
{
    let runner = Commands::new();
    runner.encode(args, file)
}

/// `Commands::remove`, by a runner made for the call.
pub fn remove_with_args(args: RemoveArgs, file: &[u8]) -> (r: Result<Vec<u8>, Error>)
    ensures
        removed(file@, args.chunk_type@) matches Ok(out) ==> r is Ok && r->Ok_0@ == out,
        removed(file@, args.chunk_type@) matches Err(e) ==> r == Err::<Vec<u8>, Error>(e),
{
    let runner = Commands::new();
    runner.remove(args, file)
}

/// `Commands::print`, by a runner made for the call.
pub fn print_with_args(args: PrintArgs, file: &[u8]) -> (r: Result<String, Error>)
    ensures
        printed(file@) matches Ok(text) ==> r is Ok && r->Ok_0@ == text,
        printed(file@) matches Err(e) ==> r == Err::<String, Error>(e),
{
    let runner = Commands::new();
    runner.print(args, file)
}

} // verus!
