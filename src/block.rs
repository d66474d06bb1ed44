//! Compressing one chunk of plain data into one framed block, and back.
use vstd::prelude::*;

use bytes::BytesMut;
use libdeflater::{Compressor as Deflater, Decompressor as Inflater};

use crate::buffer::{buf_as_slice, buf_resize, buffered};
use crate::deflate::{
    crc32, crc32_of, deflate_bound, deflate_into, deflate_of, deflater_level, inflate_into,
    inflate_of, new_deflater, new_inflater,
};
use crate::error::BgzfError;
use crate::format::{
    eof_block, extra_amount, footer_spec, header_bytes, header_spec, le32, ChecksumValues,
    BGZF_BLOCK_SIZE, BGZF_FOOTER_SIZE, BGZF_HEADER_SIZE, MAX_BGZF_BLOCK_SIZE,
};
use crate::level::CompressionLevel;

verus! {

/// `block` is one framed block, made at `level`, whose payload decompresses
/// to `data`: header with the right size field, payload, footer with the
/// CRC-32 and length of `data`.
pub open spec fn is_frame_of(level: u8, block: Seq<u8>, data: Seq<u8>) -> bool {
    &&& BGZF_HEADER_SIZE + BGZF_FOOTER_SIZE <= block.len() <= MAX_BGZF_BLOCK_SIZE
    &&& data.len() <= u32::MAX
    &&& block.subrange(0, 18) == header_spec(level, block.len() - 26)
    &&& inflate_of(block.subrange(18, block.len() - 8)) == Some(data)
    &&& block.subrange(block.len() - 8, block.len() as int) == footer_spec(
        crc32_of(data),
        data.len() as int,
    )
}

/// The block that compressing `data` at `level` gives: header, libdeflate's
/// stream, footer.
pub open spec fn frame_of(level: u8, data: Seq<u8>) -> Seq<u8> {
    header_spec(level, deflate_of(level, data).len() as int) + deflate_of(level, data)
        + footer_spec(crc32_of(data), data.len() as int)
}

/// `n` zero bytes.
pub open spec fn zeros(n: nat) -> Seq<u8> {
    Seq::new(n, |_i: int| 0u8)
}

/// The plain bytes that a payload stands for when its footer announces
/// `amount` bytes. An announced length of 0 needs no payload at all. Where the
/// stream decodes to fewer bytes than announced, the rest are zero.
pub open spec fn plain_of(payload: Seq<u8>, amount: nat) -> Option<Seq<u8>> {
    if amount == 0 {
        Some(Seq::empty())
    } else {
        match inflate_of(payload) {
            Some(d) => if d.len() <= amount {
                Some(d + zeros((amount - d.len()) as nat))
            } else {
                None
            },
            None => None,
        }
    }
}

/// Whether plain data matches a stored CRC-32. The CRC-32 of no data is 0.
pub open spec fn checksum_ok(d: Seq<u8>, crc: int) -> bool {
    if d.len() == 0 {
        crc == 0
    } else {
        crc32_of(d) == crc
    }
}

/// Appends `v` as four little-endian bytes.
fn push_le32(buf: &mut Vec<u8>, v: u32)
    ensures
        final(buf)@ == old(buf)@ + le32(v as int),
{
    buf.push((v % 256) as u8);
    buf.push(((v / 256) % 256) as u8);
    buf.push(((v / 65536) % 256) as u8);
    buf.push((v / 16777216) as u8);
    assert(buf@ =~= old(buf)@ + le32(v as int));
}

/// Compresses chunks of plain data into framed blocks, reusing one libdeflate
/// compressor.
pub struct Compressor {
    inner: Deflater,
    level: CompressionLevel,
}

impl Compressor {
    /// The level this compressor was made with.
    pub closed spec fn level(&self) -> u8 {
        self.level@
    }

    /// The libdeflate compressor works at the recorded level.
    pub closed spec fn wf(&self) -> bool {
        deflater_level(self.inner) == self.level@
    }

    /// Makes a compressor for the given level.
    pub fn new(level: CompressionLevel) -> (r: Compressor)
        ensures
            r.wf(),
            r.level() == level@,
    {
        let l = level.value();
        Compressor { inner: new_deflater(l), level }
    }

    /// Compresses `input` into `buffer` as one framed block: the header is
    /// written after the payload, once its size is known. Input of at most the
    /// nominal block size always fits: libdeflate's worst case leaves the
    /// block well under the 64 KiB ceiling.
    pub fn compress(&mut self, input: &[u8], buffer: &mut Vec<u8>) -> (r: Result<(), BgzfError>)
        requires
            old(self).wf(),
            input@.len() <= BGZF_BLOCK_SIZE,
        ensures
            final(self).wf(),
            final(self).level() == old(self).level(),
            r is Ok,
            final(buffer)@ == frame_of(old(self).level(), input@),
            is_frame_of(old(self).level(), final(buffer)@, input@),
    {
        let n_in = input.len();
        let cap = BGZF_HEADER_SIZE + n_in + extra_amount(n_in) + BGZF_FOOTER_SIZE;
        buffer.resize(cap, 0u8);
        assert((n_in + 4999) / 5000 <= 14) by (nonlinear_arith)
            requires
                n_in <= BGZF_BLOCK_SIZE,
        ;
        assert(deflate_bound(n_in as int) <= n_in + 70);
        let written = match deflate_into(&mut self.inner, input, buffer, BGZF_HEADER_SIZE) {
            Ok(n) => n,
            Err(e) => {
                return Err(BgzfError::LibDeflaterCompress(e));
            },
        };
        // The ceiling of the size field; never reached within the nominal block size.
        if written + BGZF_HEADER_SIZE + BGZF_FOOTER_SIZE > MAX_BGZF_BLOCK_SIZE {
            return Err(BgzfError::BlockSizeExceeded(written, MAX_BGZF_BLOCK_SIZE));
        }
        let check = crc32(input);
        let header = header_bytes(self.level.value(), written as u16);
        let ghost compressed = buffer@;
        let mut i: usize = 0;
        while i < BGZF_HEADER_SIZE
            invariant
                i <= BGZF_HEADER_SIZE,
                header@.len() == BGZF_HEADER_SIZE,
                buffer@.len() == compressed.len(),
                compressed.len() == cap,
                cap >= BGZF_HEADER_SIZE,
                forall|j: int| 0 <= j < i ==> buffer@[j] == header@[j],
                forall|j: int| i <= j < cap ==> buffer@[j] == compressed[j],
            decreases BGZF_HEADER_SIZE - i,
        {
            buffer.set(i, header[i]);
            i = i + 1;
        }
        buffer.truncate(BGZF_HEADER_SIZE + written);
        let ghost framed = buffer@;
        push_le32(buffer, check);
        push_le32(buffer, n_in as u32);
        proof {
            let total = buffer@.len() as int;
            assert(framed.subrange(0, 18) =~= header@);
            assert(buffer@.subrange(0, 18) =~= framed.subrange(0, 18));
            assert(buffer@.subrange(18, total - 8) =~= compressed.subrange(18, 18 + written));
            assert(buffer@.subrange(total - 8, total) =~= footer_spec(check, n_in as int));
            assert(buffer@ =~= buffer@.subrange(0, 18) + buffer@.subrange(18, total - 8)
                + buffer@.subrange(total - 8, total));
        }
        Ok(())
    }

    /// Appends the end-marker block.
    pub fn append_eof(bytes: &mut Vec<u8>)
        ensures
            final(bytes)@ == old(bytes)@ + eof_block(),
    {
        let marker: [u8; 28] = [
            0x1f, 0x8b, 0x08, 0x04, 0x00, 0x00, 0x00, 0x00, 0x00, 0xff, 0x06, 0x00, 0x42, 0x43,
            0x02, 0x00, 0x1b, 0x00, 0x03, 0x00, 0x00, 0x00, 0x00, 0x00, 0x00, 0x00, 0x00, 0x00,
        ];
        bytes.extend_from_slice(&marker);
        assert(bytes@ =~= old(bytes)@ + eof_block());
    }
}

/// Decompresses framed blocks, reusing one libdeflate decompressor.
pub struct Decompressor {
    inner: Inflater,
}

impl Default for Decompressor {
    fn default() -> (r: Decompressor) {
        Decompressor::new()
    }
}

impl Decompressor {
    /// Makes a decompressor.
    pub fn new() -> (r: Decompressor) {
        Decompressor { inner: new_inflater() }
    }

    /// Decompresses a payload (header and footer removed) into `output`,
    /// which holds as many bytes as the footer announces, and checks the
    /// result against the footer's CRC-32.
    pub fn decompress(
        &mut self,
        input: &[u8],
        output: &mut BytesMut,
        checksum_values: ChecksumValues,
    ) -> (r: Result<(), BgzfError>)
        requires
            buffered(*old(output)).len() == checksum_values.amount,
        ensures
            r is Ok <==> (plain_of(input@, checksum_values.amount as nat) matches Some(d)
                && checksum_ok(d, checksum_values.sum as int)),
            plain_of(input@, checksum_values.amount as nat) matches Some(d) ==> buffered(
                *final(output),
            ) == d,
            plain_of(input@, checksum_values.amount as nat) is None ==> r matches Err(
                BgzfError::LibDelfaterDecompress(_),
            ),
            plain_of(input@, checksum_values.amount as nat) matches Some(d) ==> (r matches Err(e)
                ==> e == (BgzfError::InvalidChecksum {
                found: crc32_of(d),
                expected: checksum_values.sum,
            })),
    {
        if checksum_values.amount != 0 {
            let n = match inflate_into(&mut self.inner, input, output) {
                Ok(n) => n,
                Err(e) => {
                    return Err(BgzfError::LibDelfaterDecompress(e));
                },
            };
            let ghost decoded = buffered(*output).subrange(0, n as int);
            if n < checksum_values.amount as usize {
                // The decoder defines only the bytes it wrote: the rest are zero.
                buf_resize(output, n, 0u8);
                buf_resize(output, checksum_values.amount as usize, 0u8);
            }
            assert(buffered(*output) =~= decoded + zeros((checksum_values.amount - n) as nat));
        } else {
            assert(buffered(*output) =~= Seq::<u8>::empty());
        }
        let found = crc32(buf_as_slice(output));
        if checksum_values.sum != found {
            return Err(BgzfError::InvalidChecksum { found, expected: checksum_values.sum });
        }
        Ok(())
    }
}

} // verus!
