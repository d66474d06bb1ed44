//! The block format: header and footer layout, and what it means for bytes to
//! be a well-formed block.
use vstd::prelude::*;

use crate::error::BgzfError;

verus! {

/// The largest amount of plain data put in one block (taken from bgzip).
pub const BGZF_BLOCK_SIZE: usize = 65280;

/// 128 KiB, the default buffer size.
pub const BUFSIZE: usize = 128 * 1024;

/// The ceiling on the total size of one framed block: its size field is 16 bits.
pub const MAX_BGZF_BLOCK_SIZE: usize = 64 * 1024;

pub const BGZF_HEADER_SIZE: usize = 18;
pub const BGZF_FOOTER_SIZE: usize = 8;
pub const BGZF_MAGIC_BYTE_A: u8 = 31;
pub const BGZF_MAGIC_BYTE_B: u8 = 139;
pub const BGZF_COMPRESSION_METHOD: u8 = 8;
pub const BGZF_NAME_COMMENT_EXTRA_FLAG: u8 = 4;
pub const BGZF_DEFAULT_OS: u8 = 255;
pub const BGZF_EXTRA_FLAG_LEN: u8 = 6;
pub const BGZF_SUBFIELD_ID1: u8 = 66;
pub const BGZF_SUBFIELD_ID2: u8 = 67;
pub const BGZF_SUBFIELD_LEN: u8 = 2;
pub const BGZF_BLOCK_SIZE_OFFSET: usize = 16;

pub const BGZF_COMPRESSION_HINT_BEST: u8 = 2;
pub const BGZF_COMPRESSION_HINT_FASTEST: u8 = 4;
pub const BGZF_COMPRESSION_HINT_OTHER: u8 = 0;

/// The weakest compression level that libdeflate accepts.
pub const MIN_COMPRESSION_LEVEL: u8 = 0;

/// The strongest compression level that libdeflate accepts.
pub const MAX_COMPRESSION_LEVEL: u8 = 12;

/// The hint byte stored in the header for a compression level.
pub open spec fn hint_of(level: u8) -> u8 {
    if level >= MAX_COMPRESSION_LEVEL {
        BGZF_COMPRESSION_HINT_BEST
    } else if level <= MIN_COMPRESSION_LEVEL {
        BGZF_COMPRESSION_HINT_FASTEST
    } else {
        BGZF_COMPRESSION_HINT_OTHER
    }
}

/// Two bytes, little-endian.
pub open spec fn le16(v: int) -> Seq<u8> {
    seq![(v % 256) as u8, (v / 256) as u8]
}

/// Four bytes, little-endian.
pub open spec fn le32(v: int) -> Seq<u8> {
    seq![(v % 256) as u8, ((v / 256) % 256) as u8, ((v / 65536) % 256) as u8, (v / 16777216) as u8]
}

/// The little-endian 16-bit number at `at`.
pub open spec fn le16_at(b: Seq<u8>, at: int) -> int {
    b[at] as int + 256 * b[at + 1] as int
}

/// The little-endian 32-bit number at `at`.
pub open spec fn le32_at(b: Seq<u8>, at: int) -> int {
    b[at] as int + 256 * b[at + 1] as int + 65536 * b[at + 2] as int + 16777216 * b[at + 3] as int
}

/// The fixed part of every header: everything before the size field.
pub open spec fn header_prefix(level: u8) -> Seq<u8> {
    seq![
        BGZF_MAGIC_BYTE_A, BGZF_MAGIC_BYTE_B, BGZF_COMPRESSION_METHOD,
        BGZF_NAME_COMMENT_EXTRA_FLAG, 0u8, 0u8, 0u8, 0u8, hint_of(level), BGZF_DEFAULT_OS,
        BGZF_EXTRA_FLAG_LEN, 0u8, BGZF_SUBFIELD_ID1, BGZF_SUBFIELD_ID2, BGZF_SUBFIELD_LEN, 0u8,
    ]
}

/// The 18-byte header of a block whose compressed payload is `payload_len`
/// bytes long: the size field holds the total block size minus one.
pub open spec fn header_spec(level: u8, payload_len: int) -> Seq<u8> {
    header_prefix(level) + le16(payload_len + 25)
}

/// The 8-byte footer: CRC-32 of the plain data, then its length.
pub open spec fn footer_spec(crc: u32, len: int) -> Seq<u8> {
    le32(crc as int) + le32(len)
}

/// What a reader demands of a header before it trusts the size field.
pub open spec fn header_valid(h: Seq<u8>) -> bool {
    &&& h.len() >= 18
    &&& h[0] == BGZF_MAGIC_BYTE_A
    &&& h[1] == BGZF_MAGIC_BYTE_B
    &&& h[3] & BGZF_NAME_COMMENT_EXTRA_FLAG == BGZF_NAME_COMMENT_EXTRA_FLAG
    &&& h[12] == BGZF_SUBFIELD_ID1
    &&& h[13] == BGZF_SUBFIELD_ID2
}

/// The total block size that a header announces.
pub open spec fn block_size_of(h: Seq<u8>) -> int {
    le16_at(h, 16) + 1
}

/// The CRC-32 stored in the footer of a block (or of a block without its header).
pub open spec fn footer_crc(b: Seq<u8>) -> int {
    le32_at(b, b.len() - 8)
}

/// The plain length stored in the footer of a block.
pub open spec fn footer_len(b: Seq<u8>) -> int {
    le32_at(b, b.len() - 4)
}

/// The fixed empty block that ends every stream.
pub open spec fn eof_block() -> Seq<u8> {
    seq![
        0x1fu8, 0x8b, 0x08, 0x04, 0x00, 0x00, 0x00, 0x00, 0x00, 0xff, 0x06, 0x00, 0x42, 0x43,
        0x02, 0x00, 0x1b, 0x00, 0x03, 0x00, 0x00, 0x00, 0x00, 0x00, 0x00, 0x00, 0x00, 0x00,
    ]
}

/// Slack added to the output buffer for inputs that deflate makes larger:
/// a tenth of the input, rounded half up, and never less than 128 bytes.
pub fn extra_amount(input_len: usize) -> (r: usize)
    ensures
        r == if (input_len + 5) / 10 > 128 { (input_len + 5) / 10 } else { 128 },
{
    let tenth: usize = input_len / 10 + if input_len % 10 >= 5 {
        1
    } else {
        0
    };
    if tenth > 128 {
        tenth
    } else {
        128
    }
}

/// The header bytes for a block of the given level and compressed size.
pub fn header_bytes(level: u8, compressed_size: u16) -> (r: Vec<u8>)
    requires
        compressed_size as int + 26 <= MAX_BGZF_BLOCK_SIZE,
    ensures
        r@ == header_spec(level, compressed_size as int),
{
    let hint: u8 = if level >= MAX_COMPRESSION_LEVEL {
        BGZF_COMPRESSION_HINT_BEST
    } else if level <= MIN_COMPRESSION_LEVEL {
        BGZF_COMPRESSION_HINT_FASTEST
    } else {
        BGZF_COMPRESSION_HINT_OTHER
    };
    let total_minus_one: u16 = compressed_size + 25;
    let r = vec![
        BGZF_MAGIC_BYTE_A, BGZF_MAGIC_BYTE_B, BGZF_COMPRESSION_METHOD,
        BGZF_NAME_COMMENT_EXTRA_FLAG, 0u8, 0u8, 0u8, 0u8, hint, BGZF_DEFAULT_OS,
        BGZF_EXTRA_FLAG_LEN, 0u8, BGZF_SUBFIELD_ID1, BGZF_SUBFIELD_ID2, BGZF_SUBFIELD_LEN, 0u8,
        (total_minus_one % 256) as u8, (total_minus_one / 256) as u8,
    ];
    assert(r@ =~= header_spec(level, compressed_size as int));
    r
}

/// The checksum and plain length that a block's footer announces.
#[derive(Debug, Clone, Copy)]
pub struct ChecksumValues {
    /// The CRC-32 of the plain data.
    pub sum: u32,
    /// The number of plain bytes.
    pub amount: u32,
}

/// Checks that a header belongs to this format: the gzip magic bytes, the
/// extra-field flag and the `BC` subfield tag.
pub fn check_header(bytes: &[u8]) -> (r: Result<(), BgzfError>)
    requires
        bytes@.len() >= BGZF_HEADER_SIZE,
    ensures
        r is Ok <==> header_valid(bytes@),
        !(bytes@[0] == BGZF_MAGIC_BYTE_A && bytes@[1] == BGZF_MAGIC_BYTE_B) ==> r == Err::<
            (),
            BgzfError,
        >(BgzfError::InvalidHeader("Bad magic bytes")),
        bytes@[0] == BGZF_MAGIC_BYTE_A && bytes@[1] == BGZF_MAGIC_BYTE_B && bytes@[3]
            & BGZF_NAME_COMMENT_EXTRA_FLAG != BGZF_NAME_COMMENT_EXTRA_FLAG ==> r == Err::<
            (),
            BgzfError,
        >(BgzfError::InvalidHeader("Extra field flag not set")),
        bytes@[0] == BGZF_MAGIC_BYTE_A && bytes@[1] == BGZF_MAGIC_BYTE_B && bytes@[3]
            & BGZF_NAME_COMMENT_EXTRA_FLAG == BGZF_NAME_COMMENT_EXTRA_FLAG && !(bytes@[12]
            == BGZF_SUBFIELD_ID1 && bytes@[13] == BGZF_SUBFIELD_ID2) ==> r == Err::<(), BgzfError>(
            BgzfError::InvalidHeader("Bad SID"),
        ),
{
    if bytes[0] != BGZF_MAGIC_BYTE_A || bytes[1] != BGZF_MAGIC_BYTE_B {
        Err(BgzfError::InvalidHeader("Bad magic bytes"))
    } else if bytes[3] & BGZF_NAME_COMMENT_EXTRA_FLAG != BGZF_NAME_COMMENT_EXTRA_FLAG {
        Err(BgzfError::InvalidHeader("Extra field flag not set"))
    } else if bytes[12] != BGZF_SUBFIELD_ID1 || bytes[13] != BGZF_SUBFIELD_ID2 {
        Err(BgzfError::InvalidHeader("Bad SID"))
    } else {
        Ok(())
    }
}

/// The total size of a block, header and footer included, as its header says.
pub fn get_block_size(bytes: &[u8]) -> (r: usize)
    requires
        bytes@.len() >= BGZF_HEADER_SIZE,
    ensures
        r == block_size_of(bytes@),
        1 <= r <= MAX_BGZF_BLOCK_SIZE,
{
    bytes[BGZF_BLOCK_SIZE_OFFSET] as usize + 256 * (bytes[BGZF_BLOCK_SIZE_OFFSET + 1] as usize) + 1
}

/// Reads the checksum and the plain length from the last 8 bytes.
pub fn get_footer_values(input: &[u8]) -> (r: ChecksumValues)
    requires
        input@.len() >= BGZF_FOOTER_SIZE,
    ensures
        r.sum == footer_crc(input@),
        r.amount == footer_len(input@),
{
    let n = input.len();
    let sum: u32 = input[n - 8] as u32 + 256 * (input[n - 7] as u32) + 65536 * (input[n - 6] as u32)
        + 16777216 * (input[n - 5] as u32);
    let amount: u32 = input[n - 4] as u32 + 256 * (input[n - 3] as u32) + 65536 * (input[n
        - 2] as u32) + 16777216 * (input[n - 1] as u32);
    ChecksumValues { sum, amount }
}

/// The compressed payload: everything but the last 8 bytes.
pub fn strip_footer(input: &[u8]) -> (r: &[u8])
    requires
        input@.len() >= BGZF_FOOTER_SIZE,
    ensures
        r@ == input@.subrange(0, input@.len() - BGZF_FOOTER_SIZE),
{
    vstd::slice::slice_subrange(input, 0, input.len() - BGZF_FOOTER_SIZE)
}

} // verus!
