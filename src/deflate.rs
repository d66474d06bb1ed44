//! What this library takes from libdeflate: compression, decompression and
//! CRC-32, each behind one trusted item.
use vstd::prelude::*;

use crate::format::MAX_COMPRESSION_LEVEL;
use bytes::BytesMut;
use libdeflater::{Compressor as Deflater, Decompressor as Inflater};

use crate::buffer::buffered;

verus! {

#[verifier::external_type_specification]
#[verifier::external_body]
pub struct ExDeflater(Deflater);

#[verifier::external_type_specification]
#[verifier::external_body]
pub struct ExInflater(Inflater);

#[verifier::external_type_specification]
#[verifier::external_body]
pub struct ExCompressionError(libdeflater::CompressionError);

#[verifier::external_type_specification]
#[verifier::external_body]
pub struct ExDecompressionError(libdeflater::DecompressionError);

/// What libdeflate's decompressor makes of a DEFLATE stream that starts at
/// the front of `data`: the plain bytes, or `None` where the stream is invalid.
pub uninterp spec fn inflate_of(data: Seq<u8>) -> Option<Seq<u8>>;

/// The raw DEFLATE stream that libdeflate's compressor makes of `input` at
/// `level`. The compressor picks its blocks without looking at the room left
/// for output, so the stream depends on these two alone.
pub uninterp spec fn deflate_of(level: u8, input: Seq<u8>) -> Seq<u8>;

/// The level a libdeflate compressor was made with.
pub uninterp spec fn deflater_level(d: Deflater) -> u8;

/// libdeflate's worst case for the compressed size of `n` bytes
/// (`libdeflate_deflate_compress_bound`): 5 bytes of overhead for each
/// started run of 5000 input bytes, at least one run.
pub open spec fn deflate_bound(n: int) -> int {
    let runs = (n + 4999) / 5000;
    n + 5 * if runs > 1 { runs } else { 1 }
}

/// The CRC-32 of some bytes, as libdeflate computes it.
pub uninterp spec fn crc32_of(data: Seq<u8>) -> u32;

/// Relies on `libdeflater::CompressionLvl::new`, which accepts exactly the
/// levels from 0 to 12.
#[verifier::external_body]
pub(crate) fn level_accepted(level: u8) -> (r: bool)
    ensures
        r == (level <= MAX_COMPRESSION_LEVEL),
{
    libdeflater::CompressionLvl::new(level as i32).is_ok()
}

/// Relies on `libdeflater::Compressor::new`, which builds a compressor for an
/// accepted level.
#[verifier::external_body]
pub(crate) fn new_deflater(level: u8) -> (r: Deflater)
    requires
        level <= MAX_COMPRESSION_LEVEL,
    ensures
        deflater_level(r) == level,
{
    Deflater::new(libdeflater::CompressionLvl::new(level as i32).unwrap())
}

/// Relies on `libdeflater::Decompressor::new`.
#[verifier::external_body]
pub(crate) fn new_inflater() -> (r: Inflater) {
    Inflater::new()
}

/// Relies on `libdeflater::Compressor::deflate_compress`, handed `out` from
/// `start` on. It writes only there. It returns the size of the stream when
/// the stream fits there, and fails only when it does not; the stream is never
/// longer than `libdeflate_deflate_compress_bound` gives, and libdeflate
/// documents it as decompressing to `input`.
#[verifier::external_body]
pub(crate) fn deflate_into(c: &mut Deflater, input: &[u8], out: &mut Vec<u8>, start: usize) -> (r:
    Result<usize, libdeflater::CompressionError>)
    requires
        start <= old(out)@.len(),
    ensures
        deflater_level(*final(c)) == deflater_level(*old(c)),
        deflate_of(deflater_level(*old(c)), input@).len() <= deflate_bound(input@.len() as int),
        inflate_of(deflate_of(deflater_level(*old(c)), input@)) == Some(input@),
        final(out)@.len() == old(out)@.len(),
        final(out)@.subrange(0, start as int) == old(out)@.subrange(0, start as int),
        r is Ok <==> deflate_of(deflater_level(*old(c)), input@).len() <= old(out)@.len() - start,
        r matches Ok(n) ==> n == deflate_of(deflater_level(*old(c)), input@).len()
            && final(out)@.subrange(start as int, start + n) == deflate_of(
            deflater_level(*old(c)),
            input@,
        ),
{
    c.deflate_compress(input, &mut out[start..])
}

/// Relies on `libdeflater::Decompressor::deflate_decompress`, handed the
/// bytes of `out`: it succeeds exactly when `input` starts with a valid
/// DEFLATE stream whose plain data fits in `out`, and then writes that data to
/// the front of `out` and returns its length.
#[verifier::external_body]
pub(crate) fn inflate_into(d: &mut Inflater, input: &[u8], out: &mut BytesMut) -> (r: Result<
    usize,
    libdeflater::DecompressionError,
>)
    ensures
        buffered(*final(out)).len() == buffered(*old(out)).len(),
        r is Ok <==> (inflate_of(input@) is Some && inflate_of(input@)->0.len() <= buffered(
            *old(out),
        ).len()),
        r matches Ok(n) ==> n <= buffered(*old(out)).len() && inflate_of(input@) == Some(
            buffered(*final(out)).subrange(0, n as int),
        ),
{
    d.deflate_decompress(input, &mut out[..])
}

/// Relies on `libdeflater::crc32`: the CRC-32 of the bytes, which is 0 for no
/// bytes.
#[verifier::external_body]
pub(crate) fn crc32(data: &[u8]) -> (r: u32)
    ensures
        r == crc32_of(data@),
        data@.len() == 0 ==> r == 0,
{
    libdeflater::crc32(data)
}

} // verus!
