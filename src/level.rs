//! The compression level, checked once when it is made.
use vstd::prelude::*;

use crate::deflate::level_accepted;
use crate::error::BgzfError;
use crate::format::MAX_COMPRESSION_LEVEL;

verus! {

/// A compression level that libdeflate accepts: 0 (fastest) to 12 (best).
#[derive(Debug, Clone, Copy, PartialEq, Eq)]
pub struct CompressionLevel {
    level: u8,
}

impl View for CompressionLevel {
    type V = u8;

    closed spec fn view(&self) -> u8 {
        self.level
    }
}

impl CompressionLevel {
    #[verifier::type_invariant]
    spec fn accepted(self) -> bool {
        self.level <= MAX_COMPRESSION_LEVEL
    }

    /// The level that stands for `v`.
    pub closed spec fn of(v: u8) -> CompressionLevel {
        CompressionLevel { level: v }
    }

    /// Makes a level, refusing values outside 0 to 12.
    pub fn new(level: u8) -> (r: Result<CompressionLevel, BgzfError>)
        ensures
            level <= MAX_COMPRESSION_LEVEL ==> (r == Ok::<CompressionLevel, BgzfError>(
                CompressionLevel::of(level),
            ) && (r matches Ok(l) && l@ == level)),
            level > MAX_COMPRESSION_LEVEL ==> (r matches Err(BgzfError::CompressionLevel(v))
                && v == level),
    {
        if level_accepted(level) {
            Ok(CompressionLevel { level })
        } else {
            Err(BgzfError::CompressionLevel(level))
        }
    }

    /// The level as a number.
    pub fn value(&self) -> (r: u8)
        ensures
            r == self@,
            r <= MAX_COMPRESSION_LEVEL,
    {
        proof {
            use_type_invariant(self);
        }
        self.level
    }
}

impl From<CompressionLevel> for u8 {
    /// The level as a number.
    fn from(level: CompressionLevel) -> (r: u8) {
        level.value()
    }
}

impl vstd::std_specs::convert::FromSpecImpl<CompressionLevel> for u8 {
    open spec fn obeys_from_spec() -> bool {
        true
    }

    open spec fn from_spec(v: CompressionLevel) -> u8 {
        v@
    }
}

impl From<&CompressionLevel> for u8 {
    /// The level as a number.
    fn from(level: &CompressionLevel) -> (r: u8) {
        level.value()
    }
}

impl vstd::std_specs::convert::FromSpecImpl<&CompressionLevel> for u8 {
    open spec fn obeys_from_spec() -> bool {
        true
    }

    open spec fn from_spec(v: &CompressionLevel) -> u8 {
        v@
    }
}

impl TryFrom<u8> for CompressionLevel {
    type Error = BgzfError;

    /// The same as [`CompressionLevel::new`].
    fn try_from(value: u8) -> (r: Result<CompressionLevel, BgzfError>) {
        CompressionLevel::new(value)
    }
}

impl vstd::std_specs::convert::TryFromSpecImpl<u8> for CompressionLevel {
    open spec fn obeys_try_from_spec() -> bool {
        true
    }

    open spec fn try_from_spec(v: u8) -> Result<CompressionLevel, BgzfError> {
        if v <= MAX_COMPRESSION_LEVEL {
            Ok(CompressionLevel::of(v))
        } else {
            Err(BgzfError::CompressionLevel(v))
        }
    }
}

} // verus!
