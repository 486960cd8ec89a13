//! The checksum that protects the type and data of a chunk.

use crc::{Crc, CRC_32_ISO_HDLC};
use vstd::prelude::*;

verus! {

/// The CRC-32/ISO-HDLC checksum of `bytes`.
pub uninterp spec fn crc32_iso_hdlc(bytes: Seq<u8>) -> u32;

/// `Crc::<u32>::checksum` of the crate `crc`, for the algorithm
/// `CRC_32_ISO_HDLC`. What it returns is a function of the bytes alone; which
/// function, is not stated here.
#[verifier::external_body]
pub(crate) fn checksum(bytes: &[u8]) -> (r: u32)
    ensures
        r == crc32_iso_hdlc(bytes@),
{
    Crc::<u32>::new(&CRC_32_ISO_HDLC).checksum(bytes)
}

} // verus!
