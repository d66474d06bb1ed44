//! The decision side of a streaming BGZF writer: it gathers plain bytes into
//! blocks of a target size, compresses them, and ends the stream with the end
//! marker exactly once. The framed bytes are appended to a buffer that the
//! holder of the byte sink sends on.
use vstd::prelude::*;

use bytes::BytesMut;

use crate::block::{frame_of, is_frame_of, Compressor};
use crate::buffer::{
    buf_as_slice, buf_extend, buf_len, buf_split_to, buf_with_capacity, buffered,
};
use crate::error::BgzfError;
use crate::format::{eof_block, BGZF_BLOCK_SIZE, BUFSIZE};
use crate::laws::{lemma_frame_is_not_eof, lemma_round_trip};
use crate::level::CompressionLevel;
use crate::reader::decode_stream;

verus! {

/// The concatenation of a sequence of byte strings.
pub open spec fn flatten(parts: Seq<Seq<u8>>) -> Seq<u8>
    decreases parts.len(),
{
    if parts.len() == 0 {
        Seq::empty()
    } else {
        flatten(parts.drop_last()) + parts.last()
    }
}

/// Appending a part to the sequence appends its bytes to the concatenation.
pub proof fn lemma_flatten_push(parts: Seq<Seq<u8>>, x: Seq<u8>)
    ensures
        flatten(parts.push(x)) == flatten(parts) + x,
{
    assert(parts.push(x).drop_last() =~= parts);
}

/// A BGZF writer.
pub struct Writer {
    /// Plain bytes not yet put in a block.
    uncompressed_buffer: BytesMut,
    /// The buffer that each block is compressed into.
    compressed_buffer: Vec<u8>,
    /// The plain size of the blocks that `write` makes.
    blocksize: usize,
    compressor: Compressor,
    /// Whether the end marker has been written.
    finished: bool,
    /// The framed blocks handed out so far, in order.
    blocks: Ghost<Seq<Seq<u8>>>,
    /// The plain data of each of those blocks.
    chunks: Ghost<Seq<Seq<u8>>>,
}

impl Writer {
    pub closed spec fn level(&self) -> u8 {
        self.compressor.level()
    }

    pub closed spec fn blocksize(&self) -> usize {
        self.blocksize
    }

    pub closed spec fn pending(&self) -> Seq<u8> {
        buffered(self.uncompressed_buffer)
    }

    pub closed spec fn blocks(&self) -> Seq<Seq<u8>> {
        self.blocks@
    }

    pub closed spec fn chunks(&self) -> Seq<Seq<u8>> {
        self.chunks@
    }

    pub closed spec fn is_finished(&self) -> bool {
        self.finished
    }

    /// Everything written so far: the plain data of the emitted blocks, then
    /// the pending bytes.
    pub open spec fn contents(&self) -> Seq<u8> {
        flatten(self.chunks()) + self.pending()
    }

    pub closed spec fn compressor_ok(&self) -> bool {
        self.compressor.wf()
    }

    /// What holds of the emitted blocks at every step: each is the frame that
    /// compressing its non-empty chunk gives, and no chunk is larger than the
    /// nominal block size.
    pub open spec fn blocks_wf(&self) -> bool {
        &&& 0 < self.blocksize() <= BGZF_BLOCK_SIZE
        &&& self.compressor_ok()
        &&& self.blocks().len() == self.chunks().len()
        &&& forall|i: int|
            0 <= i < self.blocks().len() ==> #[trigger] is_frame_of(
                self.level(),
                self.blocks()[i],
                self.chunks()[i],
            ) && self.blocks()[i] == frame_of(self.level(), self.chunks()[i])
        &&& forall|i: int|
            0 <= i < self.chunks().len() ==> 0 < #[trigger] self.chunks()[i].len()
                <= BGZF_BLOCK_SIZE
    }

    /// The writer's invariant: the blocks are well formed and less than one
    /// block of plain data is pending.
    pub open spec fn wf(&self) -> bool {
        &&& self.blocks_wf()
        &&& self.pending().len() < self.blocksize()
    }

    /// A writer whose blocks hold the nominal block size of plain data.
    pub fn new(compression_level: CompressionLevel) -> (r: Writer)
        ensures
            r.wf(),
            r.level() == compression_level@,
            r.blocksize() == BGZF_BLOCK_SIZE,
            r.pending() == Seq::<u8>::empty(),
            r.blocks() == Seq::<Seq<u8>>::empty(),
            r.chunks() == Seq::<Seq<u8>>::empty(),
            !r.is_finished(),
    {
        Self::with_capacity(compression_level, BGZF_BLOCK_SIZE)
    }

    /// A writer whose blocks hold `blocksize` bytes of plain data.
    pub fn with_capacity(compression_level: CompressionLevel, blocksize: usize) -> (r: Writer)
        requires
            0 < blocksize <= BGZF_BLOCK_SIZE,
        ensures
            r.wf(),
            r.level() == compression_level@,
            r.blocksize() == blocksize,
            r.pending() == Seq::<u8>::empty(),
            r.blocks() == Seq::<Seq<u8>>::empty(),
            r.chunks() == Seq::<Seq<u8>>::empty(),
            !r.is_finished(),
    {
        Writer {
            uncompressed_buffer: buf_with_capacity(BUFSIZE),
            compressed_buffer: Vec::with_capacity(BUFSIZE),
            blocksize,
            compressor: Compressor::new(compression_level),
            finished: false,
            blocks: Ghost(Seq::empty()),
            chunks: Ghost(Seq::empty()),
        }
    }

    /// Compresses pending bytes into blocks of `size` plain bytes, appending
    /// them to `out`, while at least `size` bytes are pending; with `all`, a
    /// shorter non-empty rest becomes a last block too.
    fn drain(&mut self, size: usize, all: bool, out: &mut Vec<u8>) -> (r: Result<(), BgzfError>)
        requires
            old(self).blocks_wf(),
            0 < size <= BGZF_BLOCK_SIZE,
        ensures
            final(self).blocks_wf(),
            r is Ok,
            all && 0 < old(self).pending().len() <= size ==> final(self).chunks() == old(
                self,
            ).chunks().push(old(self).pending()),
            all && old(self).pending().len() == 0 ==> final(self).chunks() == old(self).chunks(),
            final(self).level() == old(self).level(),
            final(self).blocksize() == old(self).blocksize(),
            final(self).is_finished() == old(self).is_finished(),
            r is Ok ==> final(self).contents() == old(self).contents(),
            final(self).blocks().subrange(0, old(self).blocks().len() as int) == old(self).blocks(),
            final(self).chunks().subrange(0, old(self).chunks().len() as int) == old(self).chunks(),
            final(out)@ == old(out)@ + flatten(
                final(self).blocks().subrange(
                    old(self).blocks().len() as int,
                    final(self).blocks().len() as int,
                ),
            ),
            forall|i: int|
                old(self).chunks().len() <= i < final(self).chunks().len() ==> (
                #[trigger] final(self).chunks()[i]).len() <= size && (!all ==> final(
                self).chunks()[i].len() == size),
            r is Ok && all ==> final(self).pending().len() == 0,
            r is Ok && !all ==> final(self).pending().len() < size,
    {
        let ghost old_blocks = self.blocks@;
        let ghost old_chunks = self.chunks@;
        loop
            invariant
                self.blocks_wf(),
                all && 0 < old(self).pending().len() <= size ==> (self.chunks@ == old_chunks
                    && self.pending() == old(self).pending()) || (self.chunks@ == old_chunks.push(
                    old(self).pending(),
                ) && self.pending().len() == 0),
                all && old(self).pending().len() == 0 ==> self.chunks@ == old_chunks,
                0 < size <= BGZF_BLOCK_SIZE,
                self.level() == old(self).level(),
                self.blocksize == old(self).blocksize,
                self.finished == old(self).finished,
                self.blocks@.len() >= old_blocks.len(),
                old_blocks.len() == old_chunks.len(),
                self.blocks@.subrange(0, old_blocks.len() as int) == old_blocks,
                self.chunks@.subrange(0, old_chunks.len() as int) == old_chunks,
                old_blocks == old(self).blocks@,
                old_chunks == old(self).chunks@,
                self.contents() == old(self).contents(),
                out@ == old(out)@ + flatten(
                    self.blocks@.subrange(old_blocks.len() as int, self.blocks@.len() as int),
                ),
                forall|i: int|
                    old_chunks.len() <= i < self.chunks@.len() ==> #[trigger] self.chunks@[i].len()
                        <= size && (!all ==> self.chunks@[i].len() == size),
            ensures
                all ==> self.pending().len() == 0,
                !all ==> self.pending().len() < size,
            decreases self.pending().len(),
        {
            let len = buf_len(&self.uncompressed_buffer);
            if len == 0 || (!all && len < size) {
                break;
            }
            let n = if len < size {
                len
            } else {
                size
            };
            let ghost pending = self.pending();
            let chunk = buf_split_to(&mut self.uncompressed_buffer, n);
            let res = self.compressor.compress(buf_as_slice(&chunk), &mut self.compressed_buffer);
            if res.is_err() {
                return res;
            }
            out.extend_from_slice(self.compressed_buffer.as_slice());
            proof {
                let b = self.compressed_buffer@;
                let c = buffered(chunk);
                let k = self.blocks@.len() as int;
                let new_blocks = self.blocks@.push(b);
                lemma_flatten_push(self.blocks@.subrange(old_blocks.len() as int, k), b);
                assert(new_blocks.subrange(old_blocks.len() as int, k + 1) =~= self.blocks@.subrange(
                    old_blocks.len() as int,
                    k,
                ).push(b));
                assert(new_blocks.subrange(0, old_blocks.len() as int) =~= self.blocks@.subrange(
                    0,
                    old_blocks.len() as int,
                ));
                lemma_flatten_push(self.chunks@, c);
                assert(self.chunks@.push(c).subrange(0, old_chunks.len() as int) =~= self.chunks@.subrange(
                    0,
                    old_chunks.len() as int,
                ));
                assert(pending =~= c + self.pending());
                assert(flatten(self.chunks@) + pending =~= (flatten(self.chunks@) + c) + self.pending());
                self.blocks@ = new_blocks;
                self.chunks@ = self.chunks@.push(c);
            }
            self.compressed_buffer.clear();
        }
        Ok(())
    }

    /// Takes all of `buf`. Each time `blocksize` plain bytes are pending they
    /// become one framed block, appended to `out`.
    pub fn write(&mut self, buf: &[u8], out: &mut Vec<u8>) -> (r: Result<usize, BgzfError>)
        requires
            old(self).wf(),
        ensures
            final(self).wf(),
            final(self).level() == old(self).level(),
            final(self).blocksize() == old(self).blocksize(),
            final(self).is_finished() == old(self).is_finished(),
            old(self).is_finished() ==> (r matches Err(BgzfError::WriterFinished) && *final(self)
                == *old(self) && final(out)@ == old(out)@),
            !old(self).is_finished() ==> {
                &&& r == Ok::<usize, BgzfError>(buf@.len() as usize)
                &&& final(self).contents() == old(self).contents() + buf@
                &&& final(self).blocks().subrange(0, old(self).blocks().len() as int) == old(
                    self,
                ).blocks()
                &&& final(self).chunks().subrange(0, old(self).chunks().len() as int) == old(
                    self,
                ).chunks()
                &&& final(out)@ == old(out)@ + flatten(
                    final(self).blocks().subrange(
                        old(self).blocks().len() as int,
                        final(self).blocks().len() as int,
                    ),
                )
                &&& forall|i: int|
                    old(self).chunks().len() <= i < final(self).chunks().len() ==> (
                    #[trigger] final(self).chunks()[i]).len() == old(self).blocksize()
            },
            final(self).pending().len() < final(self).blocksize(),
    {
        if self.finished {
            return Err(BgzfError::WriterFinished);
        }
        let ghost before = self.contents();
        buf_extend(&mut self.uncompressed_buffer, buf);
        assert(self.contents() =~= before + buf@);
        assert(self.blocks() == old(self).blocks());
        assert(self.level() == old(self).level());
        assert(self.blocksize() == old(self).blocksize());
        let size = self.blocksize;
        self.drain(size, false, out)?;
        Ok(buf.len())
    }

    /// Turns all pending bytes into blocks appended to `out`, without the end
    /// marker.
    pub fn flush(&mut self, out: &mut Vec<u8>) -> (r: Result<(), BgzfError>)
        requires
            old(self).wf(),
        ensures
            final(self).wf(),
            final(self).level() == old(self).level(),
            final(self).blocksize() == old(self).blocksize(),
            final(self).is_finished() == old(self).is_finished(),
            old(self).is_finished() ==> (r matches Err(BgzfError::WriterFinished) && *final(self)
                == *old(self) && final(out)@ == old(out)@),
            !old(self).is_finished() ==> {
                &&& r is Ok
                &&& final(self).contents() == old(self).contents()
                &&& old(self).pending().len() > 0 ==> final(self).chunks() == old(
                    self,
                ).chunks().push(old(self).pending())
                &&& old(self).pending().len() == 0 ==> final(self).chunks() == old(self).chunks()
                &&& final(self).blocks().subrange(0, old(self).blocks().len() as int) == old(
                    self,
                ).blocks()
                &&& final(self).chunks().subrange(0, old(self).chunks().len() as int) == old(
                    self,
                ).chunks()
                &&& final(out)@ == old(out)@ + flatten(
                    final(self).blocks().subrange(
                        old(self).blocks().len() as int,
                        final(self).blocks().len() as int,
                    ),
                )
            },
            r is Ok ==> final(self).pending().len() == 0,
    {
        if self.finished {
            return Err(BgzfError::WriterFinished);
        }
        self.drain(BGZF_BLOCK_SIZE, true, out)
    }

    /// Turns all pending bytes into blocks and appends them to `out`, followed
    /// by the end marker. After this the writer takes nothing more. The whole
    /// stream written then decodes to everything written, and its only end
    /// marker is the last block.
    pub fn finish(&mut self, out: &mut Vec<u8>) -> (r: Result<(), BgzfError>)
        requires
            old(self).wf(),
        ensures
            final(self).wf(),
            final(self).level() == old(self).level(),
            old(self).is_finished() ==> (r matches Err(BgzfError::WriterFinished) && *final(self)
                == *old(self) && final(out)@ == old(out)@),
            !old(self).is_finished() ==> {
                &&& r is Ok
                &&& final(self).contents() == old(self).contents()
                &&& old(self).pending().len() > 0 ==> final(self).chunks() == old(
                    self,
                ).chunks().push(old(self).pending())
                &&& old(self).pending().len() == 0 ==> final(self).chunks() == old(self).chunks()
                &&& final(self).blocks().subrange(0, old(self).blocks().len() as int) == old(
                    self,
                ).blocks()
                &&& final(self).chunks().subrange(0, old(self).chunks().len() as int) == old(
                    self,
                ).chunks()
                &&& final(self).is_finished()
                &&& final(out)@ == old(out)@ + flatten(
                    final(self).blocks().subrange(
                        old(self).blocks().len() as int,
                        final(self).blocks().len() as int,
                    ),
                ) + eof_block()
            },
            r is Ok ==> {
                &&& final(self).pending().len() == 0
                &&& final(self).blocks().len() == final(self).chunks().len()
                &&& forall|i: int|
                    0 <= i < final(self).blocks().len() ==> #[trigger] final(self).blocks()[i]
                        == frame_of(final(self).level(), final(self).chunks()[i])
                &&& decode_stream(flatten(final(self).blocks()) + eof_block()) == Some(
                    final(self).contents(),
                )
                &&& forall|i: int|
                    0 <= i < final(self).blocks().len() ==> #[trigger] final(self).blocks()[i]
                        != eof_block()
            },
    {
        if self.finished {
            return Err(BgzfError::WriterFinished);
        }
        self.drain(BGZF_BLOCK_SIZE, true, out)?;
        Compressor::append_eof(out);
        self.finished = true;
        proof {
            lemma_round_trip(self.level(), self.blocks(), self.chunks());
            assert(self.contents() =~= flatten(self.chunks()));
            assert forall|i: int| 0 <= i < self.blocks().len() implies #[trigger] self.blocks()[i]
                != eof_block() by {
                lemma_frame_is_not_eof(self.level(), self.blocks()[i], self.chunks()[i]);
            }
            assert forall|i: int| 0 <= i < self.blocks().len() implies #[trigger] self.blocks()[i]
                == frame_of(self.level(), self.chunks()[i]) by {
                assert(is_frame_of(self.level(), self.blocks()[i], self.chunks()[i]));
            }
        }
        Ok(())
    }
}

} // verus!
