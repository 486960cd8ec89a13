//! What each command is given.

use std::path::PathBuf;
use vstd::prelude::*;

verus! {

/// `std::path::PathBuf`: a path, which this library hands on and never looks
/// into.
#[verifier::external_type_specification]
#[verifier::external_body]
pub struct ExPathBuf(PathBuf);

/// What `encode` is given.
#[derive(Debug)]
pub struct EncodeArgs {
    /// The PNG file to read.
    pub file_path: PathBuf,
    /// The type of the chunk that will hold the message.
    pub chunk_type: String,
    /// The message.
    pub message: String,
    /// The file to write, where it is not the file that was read.
    pub output_file: Option<PathBuf>,
}

/// What `decode` is given.
#[derive(Debug)]
pub struct DecodeArgs {
    /// The PNG file to read.
    pub file_path: PathBuf,
    /// The type of the chunk that holds the message.
    pub chunk_type: String,
}

/// What `remove` is given.
#[derive(Debug)]
pub struct RemoveArgs {
    /// The PNG file to read, and to write.
    pub file_path: PathBuf,
    /// The type of the chunk to take out.
    pub chunk_type: String,
}

/// What `print` is given.
#[derive(Debug)]
pub struct PrintArgs {
    /// The PNG file to read.
    pub file_path: PathBuf,
}

impl EncodeArgs {
    /// The file that `encode` writes: the output file where one is named, the
    /// file that was read where none is.
    pub fn output_path(&self) -> (r: &PathBuf)
        ensures
            *r == (match self.output_file {
                Some(p) => p,
                None => self.file_path,
            }),
    {
        match &self.output_file {
            Some(p) => p,
            None => &self.file_path,
        }
    }
}

} // verus!
