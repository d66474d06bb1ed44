//! The errors of this library.
use vstd::prelude::*;

verus! {

/// Why a block could not be built or read back.
#[derive(Debug)]
pub enum BgzfError {
    /// A compressed block came out larger than its 16-bit size field can say:
    /// the compressed payload size, then the ceiling on the whole block.
    BlockSizeExceeded(usize, usize),
    /// A compression level outside the accepted range.
    CompressionLevel(u8),
    /// The plain data of a block did not match the checksum in its footer.
    InvalidChecksum { found: u32, expected: u32 },
    /// A header that does not belong to this format.
    InvalidHeader(&'static str),
    /// The source ended inside a block: the header promised `needed` more
    /// bytes and only `got` came.
    TruncatedBlock { needed: usize, got: usize },
    /// The writer has already written its end marker.
    WriterFinished,
    /// libdeflate could not fit the compressed data in the buffer.
    LibDeflaterCompress(libdeflater::CompressionError),
    /// libdeflate rejected a compressed payload.
    LibDelfaterDecompress(libdeflater::DecompressionError),
}

} // verus!
