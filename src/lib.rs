//! Readers and writers for BGZF, the blocked gzip format, together with the
//! single-block compressor and decompressor they are built on.
//!
//! A BGZF stream is a run of independent gzip members. Each one carries its own
//! total size in an extra header field, and the stream ends with a fixed empty
//! member, the end marker.
//!
//! The reader and writer here make every decision and do all the framing; the
//! bytes they ask for or hand out travel to and from the actual source or sink
//! through their caller.
pub mod block;
pub mod buffer;
pub mod deflate;
pub mod error;
pub mod format;
pub mod laws;
pub mod level;
pub mod reader;
pub mod writer;

pub use block::{Compressor, Decompressor};
pub use error::BgzfError;
pub use format::{extra_amount, strip_footer, BGZF_BLOCK_SIZE, BUFSIZE};
pub use level::CompressionLevel;
pub use reader::{decode_all, Reader};
pub use writer::Writer;
