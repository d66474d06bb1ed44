//! What holds of the format as a whole: a stream of frames followed by the
//! end marker decodes to the concatenation of the frames' plain data.
use vstd::prelude::*;

use vstd::arithmetic::div_mod::{lemma_div_denominator, lemma_fundamental_div_mod};

use crate::block::{is_frame_of, zeros};
use crate::deflate::crc32_of;
use crate::format::{
    block_size_of, eof_block, footer_crc, footer_len, footer_spec, header_prefix, header_valid,
    le16, le16_at, le32, le32_at, BGZF_NAME_COMMENT_EXTRA_FLAG, MAX_BGZF_BLOCK_SIZE,
};
use crate::reader::{body_data, decode_stream};
use crate::writer::flatten;

verus! {

/// Two little-endian bytes read back give the number written.
pub proof fn lemma_le16_round_trip(v: int)
    requires
        0 <= v < 65536,
    ensures
        le16_at(le16(v), 0) == v,
{
    lemma_fundamental_div_mod(v, 256);
    assert(0 <= v / 256 < 256) by (nonlinear_arith)
        requires
            0 <= v < 65536,
    ;
}

/// Four little-endian bytes read back give the number written.
pub proof fn lemma_le32_round_trip(v: int)
    requires
        0 <= v < 0x1_0000_0000,
    ensures
        le32_at(le32(v), 0) == v,
{
    let q1 = v / 256;
    let q2 = q1 / 256;
    let q3 = q2 / 256;
    lemma_fundamental_div_mod(v, 256);
    lemma_fundamental_div_mod(q1, 256);
    lemma_fundamental_div_mod(q2, 256);
    lemma_div_denominator(v, 256, 256);
    lemma_div_denominator(q1, 256, 256);
    lemma_div_denominator(v, 65536, 256);
    assert(0 <= q1) by (nonlinear_arith)
        requires
            0 <= v,
            q1 == v / 256,
    ;
    assert(0 <= q2) by (nonlinear_arith)
        requires
            0 <= q1,
            q2 == q1 / 256,
    ;
    assert(q3 < 256) by (nonlinear_arith)
        requires
            v < 0x1_0000_0000,
            0 <= v,
            q1 == v / 256,
            q2 == q1 / 256,
            q3 == q2 / 256,
    ;
    assert(0 <= q3) by (nonlinear_arith)
        requires
            0 <= q2,
            q3 == q2 / 256,
    ;
    assert(v / 65536 == q2);
    assert(v / 16777216 == q3);
}

/// A frame followed by anything decodes to its plain data followed by what
/// the rest decodes to.
pub proof fn lemma_frame_decodes(level: u8, block: Seq<u8>, data: Seq<u8>, rest: Seq<u8>)
    requires
        is_frame_of(level, block, data),
        data.len() > 0,
    ensures
        decode_stream(block + rest) == match decode_stream(rest) {
            Some(r) => Some(data + r),
            None => None,
        },
{
    let s = block + rest;
    let n = block.len() as int;
    let h = block.subrange(0, 18);
    assert(h == header_prefix(level) + le16(n - 1));
    assert(s.subrange(0, 18) =~= h);
    assert(s[0] == h[0] && s[1] == h[1] && s[3] == h[3] && s[12] == h[12] && s[13] == h[13]);
    assert(h[3] == BGZF_NAME_COMMENT_EXTRA_FLAG);
    assert(4u8 & 4u8 == 4u8) by (bit_vector);
    assert(header_valid(s));
    lemma_le16_round_trip(n - 1);
    assert(s[16] == h[16] && s[17] == h[17]);
    assert(h[16] == le16(n - 1)[0] && h[17] == le16(n - 1)[1]);
    assert(le16_at(s, 16) == le16_at(le16(n - 1), 0));
    assert(block_size_of(s) == n);
    let body = s.subrange(18, n);
    assert(body =~= block.subrange(18, n));
    let foot = block.subrange(n - 8, n);
    assert(foot == footer_spec(crc32_of(data), data.len() as int));
    lemma_le32_round_trip(crc32_of(data) as int);
    lemma_le32_round_trip(data.len() as int);
    assert(le32_at(foot, 0) == le32_at(le32(crc32_of(data) as int), 0));
    assert(le32_at(foot, 4) == le32_at(le32(data.len() as int), 0));
    assert(footer_crc(body) == crc32_of(data));
    assert(footer_len(body) == data.len());
    assert(body.subrange(0, body.len() - 8) =~= block.subrange(18, n - 8));
    assert(data + zeros(0) =~= data);
    assert(body_data(body) == Some(data));
    assert(s.subrange(n, s.len() as int) =~= rest);
}

/// A frame's size field, plus one, is the frame's length, which never
/// exceeds the 64 KiB ceiling.
pub proof fn lemma_block_size_field(level: u8, block: Seq<u8>, data: Seq<u8>)
    requires
        is_frame_of(level, block, data),
    ensures
        block_size_of(block) == block.len(),
        block.len() <= MAX_BGZF_BLOCK_SIZE,
{
    let n = block.len() as int;
    let h = block.subrange(0, 18);
    lemma_le16_round_trip(n - 1);
    assert(block[16] == h[16] && block[17] == h[17]);
    assert(le16_at(block, 16) == le16_at(le16(n - 1), 0));
}

/// The end marker on its own decodes to no data.
pub proof fn lemma_eof_decodes()
    ensures
        decode_stream(eof_block()) == Some(Seq::<u8>::empty()),
{
    reveal_with_fuel(decode_stream, 2);
    let s = eof_block();
    assert(4u8 & 4u8 == 4u8) by (bit_vector);
    assert(header_valid(s));
    assert(block_size_of(s) == 28);
    let body = s.subrange(18, 28);
    assert(footer_len(body) == 0);
    assert(footer_crc(body) == 0);
    assert(body_data(body) == Some(Seq::<u8>::empty()));
    assert(s.subrange(28, 28).len() == 0);
    assert(Seq::<u8>::empty() + Seq::<u8>::empty() =~= Seq::<u8>::empty());
}

/// Concatenation splits off its first part as well as its last.
pub proof fn lemma_flatten_front(parts: Seq<Seq<u8>>)
    requires
        parts.len() > 0,
    ensures
        flatten(parts) == parts[0] + flatten(parts.drop_first()),
    decreases parts.len(),
{
    if parts.len() == 1 {
        assert(parts.drop_last() =~= Seq::<Seq<u8>>::empty());
        assert(parts.drop_first() =~= Seq::<Seq<u8>>::empty());
        assert(Seq::<u8>::empty() + parts[0] =~= parts[0] + Seq::<u8>::empty());
    } else {
        let init = parts.drop_last();
        lemma_flatten_front(init);
        assert(init.drop_first() =~= parts.drop_first().drop_last());
        assert(parts.drop_first().last() == parts.last());
        assert(flatten(parts.drop_first()) == flatten(init.drop_first()) + parts.last());
        assert((parts[0] + flatten(init.drop_first())) + parts.last() =~= parts[0] + (flatten(
            init.drop_first(),
        ) + parts.last()));
    }
}

/// Frames of non-empty chunks, followed by any tail, decode to the chunks'
/// data followed by what the tail decodes to.
pub proof fn lemma_frames_decode(
    level: u8,
    blocks: Seq<Seq<u8>>,
    chunks: Seq<Seq<u8>>,
    tail: Seq<u8>,
)
    requires
        blocks.len() == chunks.len(),
        forall|i: int| 0 <= i < blocks.len() ==> #[trigger] is_frame_of(level, blocks[i], chunks[i]),
        forall|i: int| 0 <= i < chunks.len() ==> #[trigger] chunks[i].len() > 0,
    ensures
        decode_stream(flatten(blocks) + tail) == match decode_stream(tail) {
            Some(r) => Some(flatten(chunks) + r),
            None => None,
        },
    decreases blocks.len(),
{
    if blocks.len() == 0 {
        assert(flatten(blocks) + tail =~= tail);
        match decode_stream(tail) {
            Some(r) => {
                assert(flatten(chunks) + r =~= r);
            },
            None => {},
        }
    } else {
        let bs = blocks.drop_first();
        let cs = chunks.drop_first();
        assert forall|i: int| 0 <= i < bs.len() implies #[trigger] is_frame_of(level, bs[i], cs[i]) by {
            assert(is_frame_of(level, blocks[i + 1], chunks[i + 1]));
        }
        assert forall|i: int| 0 <= i < cs.len() implies #[trigger] cs[i].len() > 0 by {
            assert(chunks[i + 1].len() > 0);
        }
        lemma_frames_decode(level, bs, cs, tail);
        lemma_flatten_front(blocks);
        lemma_flatten_front(chunks);
        assert(is_frame_of(level, blocks[0], chunks[0]));
        assert(chunks[0].len() > 0);
        assert(flatten(blocks) + tail =~= blocks[0] + (flatten(bs) + tail));
        lemma_frame_decodes(level, blocks[0], chunks[0], flatten(bs) + tail);
        match decode_stream(tail) {
            Some(r) => {
                assert(chunks[0] + (flatten(cs) + r) =~= flatten(chunks) + r);
            },
            None => {},
        }
    }
}

/// Round trip: frames of non-empty chunks followed by the end marker decode
/// to the chunks' data, concatenated.
pub proof fn lemma_round_trip(level: u8, blocks: Seq<Seq<u8>>, chunks: Seq<Seq<u8>>)
    requires
        blocks.len() == chunks.len(),
        forall|i: int| 0 <= i < blocks.len() ==> #[trigger] is_frame_of(level, blocks[i], chunks[i]),
        forall|i: int| 0 <= i < chunks.len() ==> #[trigger] chunks[i].len() > 0,
    ensures
        decode_stream(flatten(blocks) + eof_block()) == Some(flatten(chunks)),
{
    lemma_eof_decodes();
    lemma_frames_decode(level, blocks, chunks, eof_block());
    assert(flatten(chunks) + Seq::<u8>::empty() =~= flatten(chunks));
}

/// No frame of a non-empty chunk is the end marker: the marker announces no
/// plain data.
pub proof fn lemma_frame_is_not_eof(level: u8, block: Seq<u8>, data: Seq<u8>)
    requires
        is_frame_of(level, block, data),
        data.len() > 0,
    ensures
        block != eof_block(),
{
    let n = block.len() as int;
    let foot = block.subrange(n - 8, n);
    lemma_le32_round_trip(data.len() as int);
    assert(le32_at(foot, 4) == le32_at(le32(data.len() as int), 0));
    if block == eof_block() {
        assert(foot[4] == 0 && foot[5] == 0 && foot[6] == 0 && foot[7] == 0);
        assert(le32_at(foot, 4) == 0);
    }
}

/// Cutting the same bytes into parts of one fixed size can be done in only
/// one way. The writer's `write` emits such parts, and each block is a
/// function of its part (`frame_of`), so how the bytes were split across
/// calls does not change what is written.
pub proof fn lemma_full_chunks_unique(c1: Seq<Seq<u8>>, c2: Seq<Seq<u8>>, size: nat)
    requires
        size > 0,
        flatten(c1) == flatten(c2),
        forall|i: int| 0 <= i < c1.len() ==> (#[trigger] c1[i]).len() == size,
        forall|i: int| 0 <= i < c2.len() ==> (#[trigger] c2[i]).len() == size,
    ensures
        c1 == c2,
    decreases c1.len() + c2.len(),
{
    if c1.len() == 0 || c2.len() == 0 {
        if c1.len() > 0 {
            assert(flatten(c1).len() >= c1.last().len());
            assert(c1[c1.len() - 1].len() == size);
        }
        if c2.len() > 0 {
            assert(flatten(c2).len() >= c2.last().len());
            assert(c2[c2.len() - 1].len() == size);
        }
        assert(c1 =~= c2);
    } else {
        let i1 = c1.drop_last();
        let i2 = c2.drop_last();
        let f = flatten(c1);
        assert(c1[c1.len() - 1].len() == size);
        assert(c2[c2.len() - 1].len() == size);
        assert(c1.last() =~= f.subrange(f.len() - size, f.len() as int));
        assert(c2.last() =~= f.subrange(f.len() - size, f.len() as int));
        assert(flatten(i1) =~= f.subrange(0, f.len() - size));
        assert(flatten(i2) =~= f.subrange(0, f.len() - size));
        assert forall|i: int| 0 <= i < i1.len() implies (#[trigger] i1[i]).len() == size by {
            assert(c1[i].len() == size);
        }
        assert forall|i: int| 0 <= i < i2.len() implies (#[trigger] i2[i]).len() == size by {
            assert(c2[i].len() == size);
        }
        lemma_full_chunks_unique(i1, i2, size);
        assert(c1 =~= i1.push(c1.last()));
        assert(c2 =~= i2.push(c2.last()));
    }
}

} // verus!
