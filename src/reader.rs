//! The decision side of a streaming BGZF reader: it validates headers, decodes
//! blocks and serves their plain bytes. Whoever holds the byte source reads
//! the bytes these methods ask for and hands them in.
use vstd::prelude::*;

use bytes::BytesMut;

use crate::block::{checksum_ok, plain_of, Decompressor};
use crate::buffer::{
    buf_as_slice, buf_clear, buf_copy_to_slice, buf_len, buf_resize, buf_with_capacity, buffered,
};
use crate::error::BgzfError;
use crate::format::{
    block_size_of, check_header, footer_crc, footer_len, get_block_size, get_footer_values,
    header_valid, strip_footer, BGZF_FOOTER_SIZE, BGZF_HEADER_SIZE, BUFSIZE,
};

verus! {

/// The plain data of a block body (the bytes after the header): `None` where
/// the payload is invalid or does not match its checksum.
pub open spec fn body_data(body: Seq<u8>) -> Option<Seq<u8>> {
    match plain_of(body.subrange(0, body.len() - 8), footer_len(body) as nat) {
        Some(d) => if checksum_ok(d, footer_crc(body)) {
            Some(d)
        } else {
            None
        },
        None => None,
    }
}

/// What reading a whole stream yields: the plain data of its blocks in order,
/// or `None` where a header is invalid, a block is cut short or a block does
/// not decode. Fewer than 18 bytes where a header should start end the stream.
pub open spec fn decode_stream(s: Seq<u8>) -> Option<Seq<u8>>
    decreases s.len(),
{
    if s.len() < BGZF_HEADER_SIZE {
        Some(Seq::empty())
    } else if !header_valid(s) || block_size_of(s) < BGZF_HEADER_SIZE + BGZF_FOOTER_SIZE
        || block_size_of(s) > s.len() {
        None
    } else {
        match body_data(s.subrange(BGZF_HEADER_SIZE as int, block_size_of(s))) {
            Some(d) => match decode_stream(s.subrange(block_size_of(s), s.len() as int)) {
                Some(rest) => Some(d + rest),
                None => None,
            },
            None => None,
        }
    }
}

/// A BGZF reader: the plain bytes of the current block that have not been
/// handed out yet, and a decompressor to reuse.
pub struct Reader {
    decompressed_buffer: BytesMut,
    decompressor: Decompressor,
}

impl Reader {
    /// The plain bytes decoded and not yet handed out.
    pub closed spec fn pending(&self) -> Seq<u8> {
        buffered(self.decompressed_buffer)
    }

    /// Makes a reader with nothing decoded yet.
    pub fn new() -> (r: Reader)
        ensures
            r.pending() == Seq::<u8>::empty(),
    {
        Reader { decompressed_buffer: buf_with_capacity(BUFSIZE), decompressor: Decompressor::new() }
    }

    /// Copies pending bytes into `buf` from `start` on, as many as fit, and
    /// returns where the copied bytes end.
    pub fn copy_pending(&mut self, buf: &mut [u8], start: usize) -> (end: usize)
        requires
            start <= old(buf)@.len(),
        ensures
            end - start == if old(self).pending().len() < old(buf)@.len() - start {
                old(self).pending().len()
            } else {
                (old(buf)@.len() - start) as nat
            },
            final(buf)@ == old(buf)@.subrange(0, start as int) + old(self).pending().subrange(
                0,
                end - start,
            ) + old(buf)@.subrange(end as int, old(buf)@.len() as int),
            final(self).pending() == old(self).pending().subrange(
                end - start,
                old(self).pending().len() as int,
            ),
    {
        let available = buf_len(&self.decompressed_buffer);
        let room = buf.len() - start;
        let n = if available < room {
            available
        } else {
            room
        };
        buf_copy_to_slice(&mut self.decompressed_buffer, buf, start, n);
        start + n
    }

    /// Moves every pending byte to the end of `out`.
    fn append_pending(&mut self, out: &mut Vec<u8>)
        ensures
            final(out)@ == old(out)@ + old(self).pending(),
            final(self).pending() == Seq::<u8>::empty(),
    {
        out.extend_from_slice(buf_as_slice(&self.decompressed_buffer));
        assert(out@ =~= old(out)@ + old(self).pending());
        buf_clear(&mut self.decompressed_buffer);
    }

    /// Looks at what the source produced where a header should be. Fewer
    /// than 18 bytes mean the stream has ended (`Ok(None)`); otherwise the
    /// header is checked and the number of bytes still to read for its block
    /// is returned.
    pub fn start_block(&self, header: &[u8]) -> (r: Result<Option<usize>, BgzfError>)
        ensures
            header@.len() < BGZF_HEADER_SIZE ==> r == Ok::<Option<usize>, BgzfError>(None),
            header@.len() >= BGZF_HEADER_SIZE ==> {
                &&& (r matches Ok(Some(_))) <==> (header_valid(header@) && block_size_of(header@)
                    >= BGZF_HEADER_SIZE + BGZF_FOOTER_SIZE)
                &&& (r matches Ok(Some(n)) ==> n == block_size_of(header@) - BGZF_HEADER_SIZE)
                &&& (r matches Err(e) ==> e is InvalidHeader)
                &&& r != Ok::<Option<usize>, BgzfError>(None)
            },
    {
        if header.len() < BGZF_HEADER_SIZE {
            return Ok(None);
        }
        check_header(header)?;
        let size = get_block_size(header);
        if size < BGZF_HEADER_SIZE + BGZF_FOOTER_SIZE {
            return Err(BgzfError::InvalidHeader("Block size too small"));
        }
        Ok(Some(size - BGZF_HEADER_SIZE))
    }

    /// Decodes the block that `header` opened from the `body` bytes that the
    /// source produced after it. A body shorter than the header promised is
    /// an error, never an end of stream. On success the block's plain bytes
    /// become pending; on any error nothing is pending.
    pub fn load_block(&mut self, header: &[u8], body: &[u8]) -> (r: Result<(), BgzfError>)
        requires
            header@.len() >= BGZF_HEADER_SIZE,
            header_valid(header@),
            block_size_of(header@) >= BGZF_HEADER_SIZE + BGZF_FOOTER_SIZE,
        ensures
            body@.len() < block_size_of(header@) - BGZF_HEADER_SIZE ==> r == Err::<(), BgzfError>(
                BgzfError::TruncatedBlock {
                    needed: (block_size_of(header@) - BGZF_HEADER_SIZE) as usize,
                    got: body@.len() as usize,
                },
            ),
            body@.len() >= block_size_of(header@) - BGZF_HEADER_SIZE ==> {
                let data = body_data(body@.subrange(0, block_size_of(header@) - BGZF_HEADER_SIZE));
                &&& r is Ok <==> data is Some
                &&& r is Ok ==> Some(final(self).pending()) == data
            },
            r matches Err(e) ==> e is TruncatedBlock || e is LibDelfaterDecompress
                || e is InvalidChecksum,
            r is Err ==> final(self).pending() == Seq::<u8>::empty(),
    {
        let needed = get_block_size(header) - BGZF_HEADER_SIZE;
        if body.len() < needed {
            buf_clear(&mut self.decompressed_buffer);
            return Err(BgzfError::TruncatedBlock { needed, got: body.len() });
        }
        let compressed = vstd::slice::slice_subrange(body, 0, needed);
        let check = get_footer_values(compressed);
        buf_clear(&mut self.decompressed_buffer);
        buf_resize(&mut self.decompressed_buffer, check.amount as usize, 0u8);
        let res = self.decompressor.decompress(
            strip_footer(compressed),
            &mut self.decompressed_buffer,
            check,
        );
        if res.is_err() {
            buf_clear(&mut self.decompressed_buffer);
            return res;
        }
        Ok(())
    }
}

/// Reads a whole stream held in memory: the plain data of all its blocks, in
/// order. Fewer than 18 bytes where a header should start end the stream.
pub fn decode_all(data: &[u8]) -> (r: Result<Vec<u8>, BgzfError>)
    ensures
        r is Ok <==> decode_stream(data@) is Some,
        r matches Ok(v) ==> decode_stream(data@) == Some(v@),
{
    let mut reader = Reader::new();
    let mut out: Vec<u8> = Vec::new();
    let mut pos: usize = 0;
    assert(data@.subrange(0, data@.len() as int) =~= data@);
    assert(decode_stream(data@) matches Some(rest) ==> out@ + rest =~= rest);
    loop
        invariant
            pos <= data@.len(),
            decode_stream(data@) == match decode_stream(data@.subrange(pos as int, data@.len() as int)) {
                Some(rest) => Some(out@ + rest),
                None => None,
            },
        ensures
            decode_stream(data@) == Some(out@),
        decreases data@.len() - pos,
    {
        let ghost s = data@.subrange(pos as int, data@.len() as int);
        let header_end = if data.len() - pos < BGZF_HEADER_SIZE {
            data.len()
        } else {
            pos + BGZF_HEADER_SIZE
        };
        let header = vstd::slice::slice_subrange(data, pos, header_end);
        assert(forall|k: int| 0 <= k < header@.len() ==> header@[k] == s[k]);
        let needed = match reader.start_block(header) {
            Ok(Some(n)) => n,
            Ok(None) => {
                assert(out@ + Seq::<u8>::empty() =~= out@);
                break;
            },
            Err(e) => {
                return Err(e);
            },
        };
        let body_end = if data.len() - header_end < needed {
            data.len()
        } else {
            header_end + needed
        };
        let body = vstd::slice::slice_subrange(data, header_end, body_end);
        let res = reader.load_block(header, body);
        proof {
            let size = block_size_of(s);
            if body_end == header_end + needed {
                assert(body@ =~= s.subrange(BGZF_HEADER_SIZE as int, size));
                assert(body@.subrange(0, size - BGZF_HEADER_SIZE) =~= body@);
                assert(data@.subrange(body_end as int, data@.len() as int) =~= s.subrange(
                    size,
                    s.len() as int,
                ));
            }
        }
        if res.is_err() {
            return Err(res.unwrap_err());
        }
        let ghost before = out@;
        let ghost block = reader.pending();
        reader.append_pending(&mut out);
        proof {
            let rest = decode_stream(data@.subrange(body_end as int, data@.len() as int));
            if let Some(rr) = rest {
                assert(before + (block + rr) =~= out@ + rr);
            }
        }
        pos = body_end;
    }
    Ok(out)
}

} // verus!
