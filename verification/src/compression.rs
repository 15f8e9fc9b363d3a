//! The compression that a static file was written with.

use vstd::prelude::*;

verus! {

/// Compression applied to the rows of a static file. Only its name is recorded
/// in a file name; what the codec does is not this crate's business.
#[derive(Debug, Copy, Clone, Eq, PartialEq, Structural, Hash, Default)]
pub enum Compression {
    /// LZ4 compression algorithm.
    Lz4,
    /// Zstandard compression algorithm.
    Zstd,
    /// Zstandard compression algorithm with a dictionary.
    ZstdWithDictionary,
    /// No compression.
    #[default]
    Uncompressed,
}

impl Compression {
    /// The name under which the compression appears in file names.
    pub open spec fn name(self) -> Seq<char> {
        match self {
            Compression::Lz4 => "lz4"@,
            Compression::Zstd => "zstd"@,
            Compression::ZstdWithDictionary => "zstd-dict"@,
            Compression::Uncompressed => "uncompressed"@,
        }
    }

    /// Returns the compression as a string.
    pub fn as_str(&self) -> (r: &'static str)
        ensures
            r@ == self.name(),
    {
        match self {
            Compression::Lz4 => "lz4",
            Compression::Zstd => "zstd",
            Compression::ZstdWithDictionary => "zstd-dict",
            Compression::Uncompressed => "uncompressed",
        }
    }
}

} // verus!
