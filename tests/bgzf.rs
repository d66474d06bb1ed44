use bytes::BytesMut;

use bgzf::buffer::zeroed_buffer;
use bgzf::format::{
    check_header, get_block_size, get_footer_values, header_bytes, ChecksumValues,
};
use bgzf::{
    decode_all, extra_amount, strip_footer, BgzfError, CompressionLevel, Compressor, Decompressor, Reader,
    Writer, BGZF_BLOCK_SIZE,
};

const EOF_MARKER: [u8; 28] = [
    0x1f, 0x8b, 0x08, 0x04, 0x00, 0x00, 0x00, 0x00, 0x00, 0xff, 0x06, 0x00, 0x42, 0x43, 0x02,
    0x00, 0x1b, 0x00, 0x03, 0x00, 0x00, 0x00, 0x00, 0x00, 0x00, 0x00, 0x00, 0x00,
];

fn level(n: u8) -> CompressionLevel {
    CompressionLevel::new(n).unwrap()
}

/// Writes `data` in pieces of `piece` bytes, then finishes the stream.
fn write_all(lvl: u8, blocksize: usize, data: &[u8], piece: usize) -> Vec<u8> {
    let mut writer = Writer::with_capacity(level(lvl), blocksize);
    let mut out = Vec::new();
    for chunk in data.chunks(piece.max(1)) {
        assert_eq!(writer.write(chunk, &mut out).unwrap(), chunk.len());
    }
    writer.finish(&mut out).unwrap();
    out
}

/// Reads a whole stream held in memory, `read_size` bytes per read request.
fn read_all(bytes: &[u8], read_size: usize) -> Result<Vec<u8>, BgzfError> {
    let mut reader = Reader::new();
    let mut pos = 0usize;
    let mut result = Vec::new();
    let mut buf = vec![0u8; read_size];
    loop {
        let mut total = 0;
        loop {
            total = reader.copy_pending(&mut buf, total);
            if total == buf.len() {
                break;
            }
            let header_end = (pos + 18).min(bytes.len());
            let header = &bytes[pos..header_end];
            pos = header_end;
            let needed = match reader.start_block(header)? {
                None => break,
                Some(n) => n,
            };
            let body_end = (pos + needed).min(bytes.len());
            let body = &bytes[pos..body_end];
            pos = body_end;
            reader.load_block(header, body)?;
        }
        result.extend_from_slice(&buf[..total]);
        if total < buf.len() {
            break;
        }
    }
    Ok(result)
}

/// Splits a stream into its blocks by the size fields of their headers.
fn split_blocks(bytes: &[u8]) -> Vec<&[u8]> {
    let mut blocks = Vec::new();
    let mut pos = 0;
    while pos < bytes.len() {
        let size = get_block_size(&bytes[pos..pos + 18]);
        blocks.push(&bytes[pos..pos + size]);
        pos += size;
    }
    blocks
}

fn sample(n: usize) -> Vec<u8> {
    let mut state: u32 = 12345;
    (0..n)
        .map(|i| {
            state = state.wrapping_mul(1103515245).wrapping_add(12345);
            if i % 3 == 0 {
                (state >> 16) as u8
            } else {
                b"the quick brown fox "[i % 20]
            }
        })
        .collect()
}

#[test]
fn test_simple_bgzfsync() {
    let input = b"
        This is a longer test than normal to come up with a bunch of text.
        We'll read just a few lines at a time.
        What if this is a longer string, does that then make
        things fail?
        ";
    let mut bgzf = Writer::new(CompressionLevel::new(3).unwrap());
    let mut out = Vec::new();
    bgzf.write(input, &mut out).unwrap();
    bgzf.flush(&mut out).unwrap();
    bgzf.finish(&mut out).unwrap();

    let bytes = read_all(&out, 64).unwrap();
    assert_eq!(input.to_vec(), bytes);
}

#[test]
fn round_trip_over_levels_and_pieces() {
    let data = sample(200_000);
    for lvl in [0u8, 1, 6, 12] {
        for piece in [1usize, 777, 65_280, 300_000] {
            if piece == 1 && lvl != 6 {
                continue;
            }
            let framed = write_all(lvl, BGZF_BLOCK_SIZE, &data, piece);
            assert_eq!(read_all(&framed, 4096).unwrap(), data);
        }
    }
}

#[test]
fn round_trip_small_blocksize_and_reads() {
    let data = sample(50_000);
    let framed = write_all(2, 32_768, &data, 1000);
    assert_eq!(read_all(&framed, 7).unwrap(), data);
    assert_eq!(read_all(&framed, 100_000).unwrap(), data);
}

#[test]
fn round_trip_empty_input() {
    let framed = write_all(2, BGZF_BLOCK_SIZE, &[], 10);
    assert_eq!(framed, EOF_MARKER.to_vec());
    assert_eq!(read_all(&framed, 16).unwrap(), Vec::<u8>::new());
}

#[test]
fn block_size_field_matches_block_length() {
    let data = sample(150_000);
    let framed = write_all(5, BGZF_BLOCK_SIZE, &data, 10_000);
    for block in split_blocks(&framed) {
        let field = block[16] as usize + 256 * block[17] as usize;
        assert_eq!(field + 1, block.len());
        assert!(block.len() <= 65_536);
    }
}

#[test]
fn flipped_payload_bit_never_yields_other_data() {
    let input = sample(2000);
    let mut compressor = Compressor::new(level(6));
    let mut block = Vec::new();
    compressor.compress(&input, &mut block).unwrap();
    let payload_len = block.len() - 26;
    let mut rejected = 0;
    for byte in 0..payload_len {
        for bit in 0..8 {
            let mut corrupt = block.clone();
            corrupt[18 + byte] ^= 1 << bit;
            match read_all(&corrupt, 4096) {
                Err(_) => rejected += 1,
                Ok(data) => assert_eq!(data, input, "byte {} bit {}", byte, bit),
            }
        }
    }
    assert!(rejected * 10 > payload_len * 8 * 9);
}

#[test]
fn changed_checksum_is_invalid_checksum() {
    let input = [b'A'; 100];
    let mut compressor = Compressor::new(level(2));
    let mut block = Vec::new();
    compressor.compress(&input, &mut block).unwrap();
    let n = block.len();
    let stored = get_footer_values(&block).sum;
    block[n - 8] ^= 0x01;
    let res = read_all(&block, 200);
    match res {
        Err(BgzfError::InvalidChecksum { found, expected }) => {
            assert_eq!(found, stored);
            assert_eq!(expected, stored ^ 0x01);
        }
        other => panic!("unexpected {:?}", other),
    }
}

#[test]
fn end_marker_once_at_end() {
    let data = sample(140_000);
    let framed = write_all(4, BGZF_BLOCK_SIZE, &data, 33_333);
    let blocks = split_blocks(&framed);
    assert_eq!(*blocks.last().unwrap(), &EOF_MARKER[..]);
    let markers = blocks.iter().filter(|b| **b == &EOF_MARKER[..]).count();
    assert_eq!(markers, 1);
    assert!(framed.ends_with(&EOF_MARKER));
}

#[test]
fn short_header_reads_as_end_of_stream() {
    let data = sample(1000);
    let mut compressor = Compressor::new(level(6));
    let mut block = Vec::new();
    compressor.compress(&data, &mut block).unwrap();
    let mut stream = block.clone();
    stream.extend_from_slice(&block[..10]);
    assert_eq!(read_all(&stream, 300).unwrap(), data);

    let reader = Reader::new();
    assert!(matches!(reader.start_block(&block[..17]), Ok(None)));
    assert!(matches!(reader.start_block(&[]), Ok(None)));
}

#[test]
fn truncated_block_is_an_error() {
    let data = sample(1000);
    let mut compressor = Compressor::new(level(6));
    let mut block = Vec::new();
    compressor.compress(&data, &mut block).unwrap();
    let cut = &block[..block.len() - 1];
    match read_all(cut, 300) {
        Err(BgzfError::TruncatedBlock { needed, got }) => {
            assert_eq!(needed, block.len() - 18);
            assert_eq!(got, block.len() - 19);
        }
        other => panic!("unexpected {:?}", other),
    }
}

#[test]
fn hundred_a_compresses_and_round_trips() {
    let input = [b'A'; 100];
    let mut compressor = Compressor::new(level(2));
    let mut block = Vec::new();
    compressor.compress(&input, &mut block).unwrap();
    assert!(block.len() < 100 + 18 + 8);
    assert!(input.len() > block.len());
    assert_eq!(read_all(&block, 1000).unwrap(), input.to_vec());
}

#[test]
fn big_write_makes_full_blocks_then_remainder() {
    let data = sample(650_000);
    let mut writer = Writer::new(level(2));
    let mut out = Vec::new();
    writer.write(&data, &mut out).unwrap();
    // Nine full blocks are ready before the remainder is flushed.
    assert_eq!(split_blocks(&out).len(), 650_000 / 65_280);
    writer.finish(&mut out).unwrap();
    let blocks = split_blocks(&out);
    assert_eq!(blocks.len(), (650_000 + 65_280 - 1) / 65_280 + 1);
    for block in &blocks[..9] {
        assert_eq!(get_footer_values(block).amount as usize, 65_280);
    }
    assert_eq!(get_footer_values(blocks[9]).amount as usize, 650_000 - 9 * 65_280);
    assert_eq!(*blocks.last().unwrap(), &EOF_MARKER[..]);
    assert_eq!(read_all(&out, 65_536).unwrap(), data);
}

#[test]
fn compression_level_bounds() {
    assert_eq!(u8::from(CompressionLevel::new(0).unwrap()), 0);
    assert_eq!(u8::from(CompressionLevel::new(12).unwrap()), 12);
    assert_eq!(u8::from(&CompressionLevel::new(7).unwrap()), 7);
    assert!(matches!(CompressionLevel::new(13), Err(BgzfError::CompressionLevel(13))));
    assert!(matches!(CompressionLevel::new(255), Err(BgzfError::CompressionLevel(255))));
    let lvl: CompressionLevel = 2.try_into().unwrap();
    assert_eq!(lvl, CompressionLevel::new(2).unwrap());
    let bad: Result<CompressionLevel, BgzfError> = 20u8.try_into();
    assert!(matches!(bad, Err(BgzfError::CompressionLevel(20))));
}

#[test]
fn header_hint_follows_level() {
    assert_eq!(header_bytes(12, 100)[8], 2);
    assert_eq!(header_bytes(0, 100)[8], 4);
    assert_eq!(header_bytes(6, 100)[8], 0);
    let h = header_bytes(6, 100);
    assert_eq!(
        h,
        vec![31, 139, 8, 4, 0, 0, 0, 0, 0, 255, 6, 0, 66, 67, 2, 0, 125, 0]
    );
    assert_eq!(get_block_size(&h), 126);
    assert_eq!(get_block_size(&header_bytes(1, 65_510)), 65_536);
}

#[test]
fn bad_headers_are_rejected() {
    let good = header_bytes(6, 100);
    assert!(check_header(&good).is_ok());
    let mut bad_magic = good.clone();
    bad_magic[1] = 0;
    assert!(matches!(check_header(&bad_magic), Err(BgzfError::InvalidHeader("Bad magic bytes"))));
    let mut no_extra = EOF_MARKER[..18].to_vec();
    no_extra[3] = 0;
    assert!(matches!(
        check_header(&no_extra),
        Err(BgzfError::InvalidHeader("Extra field flag not set"))
    ));
    let mut bad_sid = good.clone();
    bad_sid[13] = b'D';
    assert!(matches!(check_header(&bad_sid), Err(BgzfError::InvalidHeader("Bad SID"))));
    let mut bad_sid1 = EOF_MARKER[..18].to_vec();
    bad_sid1[12] = b'X';
    assert!(matches!(check_header(&bad_sid1), Err(BgzfError::InvalidHeader("Bad SID"))));

    let reader = Reader::new();
    assert!(matches!(reader.start_block(&bad_sid), Err(BgzfError::InvalidHeader(_))));
    let mut tiny = good.clone();
    tiny[16] = 10;
    tiny[17] = 0;
    assert!(matches!(reader.start_block(&tiny), Err(BgzfError::InvalidHeader(_))));
    assert!(matches!(reader.start_block(&good), Ok(Some(108))));
}

#[test]
fn footer_values_and_stripping() {
    let bytes = [9u8, 9, 0x26, 0x39, 0xf4, 0xcb, 0x09, 0x00, 0x00, 0x00];
    let v = get_footer_values(&bytes);
    assert_eq!(v.sum, 0xcbf4_3926);
    assert_eq!(v.amount, 9);
    assert_eq!(strip_footer(&bytes), &[9u8, 9][..]);
    assert_eq!(strip_footer(&bytes[2..]), &[] as &[u8]);
}

#[test]
fn footer_holds_crc32_of_plain_data() {
    let mut compressor = Compressor::new(level(6));
    let mut block = Vec::new();
    compressor.compress(b"123456789", &mut block).unwrap();
    let n = block.len();
    assert_eq!(&block[n - 8..], &[0x26, 0x39, 0xf4, 0xcb, 9, 0, 0, 0]);
    assert_ne!(&block[18..n - 8], b"123456789");
}

#[test]
fn extra_amount_values() {
    assert_eq!(extra_amount(0), 128);
    assert_eq!(extra_amount(1284), 128);
    assert_eq!(extra_amount(1285), 129);
    assert_eq!(extra_amount(1289), 129);
    assert_eq!(extra_amount(1290), 129);
    assert_eq!(extra_amount(1295), 130);
    assert_eq!(extra_amount(65_280), 6528);
    assert_eq!(extra_amount(65_275), 6528);
}

#[test]
fn end_marker_alone_decodes_to_nothing() {
    let mut bytes = Vec::new();
    Compressor::append_eof(&mut bytes);
    assert_eq!(bytes, EOF_MARKER.to_vec());
    assert_eq!(read_all(&bytes, 10).unwrap(), Vec::<u8>::new());
    let mut d = Decompressor::new();
    let mut out = BytesMut::new();
    d.decompress(&[3, 0], &mut out, ChecksumValues { sum: 0, amount: 0 }).unwrap();
    assert!(out.is_empty());
    assert!(matches!(
        d.decompress(&[3, 0], &mut out, ChecksumValues { sum: 1, amount: 0 }),
        Err(BgzfError::InvalidChecksum { found: 0, expected: 1 })
    ));
}

#[test]
fn decompressor_rejects_bad_payload() {
    let mut d = Decompressor::default();
    let mut out = BytesMut::zeroed(10);
    let res = d.decompress(&[0xff, 0xff, 0xff], &mut out, ChecksumValues { sum: 0, amount: 10 });
    assert!(matches!(res, Err(BgzfError::LibDelfaterDecompress(_))));
    let mut out = zeroed_buffer(10);
    assert_eq!(&out[..], &[0u8; 10][..]);
    let res = d.decompress(&[0xff, 0xff, 0xff], &mut out, ChecksumValues { sum: 0, amount: 10 });
    assert!(matches!(res, Err(BgzfError::LibDelfaterDecompress(_))));
}

#[test]
fn finished_writer_takes_nothing_more() {
    let mut writer = Writer::new(level(1));
    let mut out = Vec::new();
    writer.write(b"abc", &mut out).unwrap();
    writer.finish(&mut out).unwrap();
    let len = out.len();
    assert!(matches!(writer.write(b"more", &mut out), Err(BgzfError::WriterFinished)));
    assert!(matches!(writer.flush(&mut out), Err(BgzfError::WriterFinished)));
    assert!(matches!(writer.finish(&mut out), Err(BgzfError::WriterFinished)));
    assert_eq!(out.len(), len);
    assert_eq!(read_all(&out, 3).unwrap(), b"abc".to_vec());
}

#[test]
fn flush_emits_pending_without_marker() {
    let mut writer = Writer::new(level(1));
    let mut out = Vec::new();
    writer.write(b"hello", &mut out).unwrap();
    assert!(out.is_empty());
    writer.flush(&mut out).unwrap();
    assert_eq!(split_blocks(&out).len(), 1);
    assert!(!out.ends_with(&EOF_MARKER));
    writer.flush(&mut out).unwrap();
    assert_eq!(split_blocks(&out).len(), 1);
    assert_eq!(read_all(&out, 100).unwrap(), b"hello".to_vec());
}

#[test]
fn incompressible_full_block_fits() {
    let mut state: u64 = 0x9e37_79b9_7f4a_7c15;
    let data: Vec<u8> = (0..BGZF_BLOCK_SIZE)
        .map(|_| {
            state ^= state << 13;
            state ^= state >> 7;
            state ^= state << 17;
            (state >> 32) as u8
        })
        .collect();
    let mut compressor = Compressor::new(level(12));
    let mut block = Vec::new();
    compressor.compress(&data, &mut block).unwrap();
    assert!(block.len() > BGZF_BLOCK_SIZE);
    assert!(block.len() <= 65_536);
    assert_eq!(get_block_size(&block), block.len());
    assert_eq!(read_all(&block, 65_536).unwrap(), data);
}

#[test]
fn compression_is_deterministic() {
    let data = sample(30_000);
    let mut a = Compressor::new(level(9));
    let mut b = Compressor::new(level(9));
    let mut out_a = vec![7u8; 3];
    let mut out_b = vec![1u8; 100_000];
    a.compress(b"warm up", &mut out_a).unwrap();
    a.compress(&data, &mut out_a).unwrap();
    b.compress(&data, &mut out_b).unwrap();
    assert_eq!(out_a, out_b);
}

#[test]
fn fresh_writer_finishes_with_marker_only() {
    let mut writer = Writer::new(level(2));
    let mut out = Vec::new();
    assert_eq!(writer.write(&[], &mut out).unwrap(), 0);
    writer.finish(&mut out).unwrap();
    assert_eq!(out, EOF_MARKER.to_vec());
}

#[test]
fn output_does_not_depend_on_write_split() {
    let data = sample(200_000);
    let whole = write_all(3, 40_000, &data, 200_000);
    for piece in [1usize, 999, 40_000, 65_280] {
        if piece == 1 {
            let small = &data[..5000];
            assert_eq!(write_all(3, 40_000, small, 1), write_all(3, 40_000, small, 5000));
            continue;
        }
        assert_eq!(write_all(3, 40_000, &data, piece), whole);
    }
}

#[test]
fn decode_all_matches_streaming_reads() {
    let data = sample(150_000);
    let framed = write_all(7, 50_000, &data, 12_345);
    assert_eq!(decode_all(&framed).unwrap(), data);
    let mut with_tail = framed.clone();
    with_tail.extend_from_slice(&framed[..17]);
    assert_eq!(decode_all(&with_tail).unwrap(), data);
    let cut = &framed[..framed.len() - 30];
    assert!(matches!(decode_all(cut), Err(BgzfError::TruncatedBlock { .. })));
    let mut bad = framed.clone();
    bad[12] = b'Z';
    assert!(matches!(decode_all(&bad), Err(BgzfError::InvalidHeader("Bad SID"))));
    assert_eq!(decode_all(&[]).unwrap(), Vec::<u8>::new());
}
