//! The supported stream formats and the file name suffix of each.

use vstd::prelude::*;
use vstd::string::*;

verus! {

/// Compression algorithm of an archive.
#[derive(Clone, Copy, Debug, PartialEq, Eq, Structural)]
pub enum Codec {
    /// No compression: the archive is written as it is.
    Plain,
    /// bzip2.
    Bzip2,
    /// Raw deflate.
    Deflate,
    /// gzip.
    Gzip,
    /// LZ4 frames.
    Lz4,
    /// xz.
    Xz,
    /// Zstandard.
    Zstd,
}

impl Codec {
    /// The file name suffix that marks this codec; empty for `Plain`.
    pub open spec fn suffix(self) -> Seq<char> {
        match self {
            Codec::Plain => ""@,
            Codec::Bzip2 => ".bz2"@,
            Codec::Deflate => ".Z"@,
            Codec::Gzip => ".gz"@,
            Codec::Lz4 => ".lz4"@,
            Codec::Xz => ".xz"@,
            Codec::Zstd => ".zst"@,
        }
    }

    /// The file name suffix that marks this codec.
    pub fn extension(self) -> (r: String)
        ensures
            r@ == self.suffix(),
    {
        let text = match self {
            Codec::Plain => "",
            Codec::Bzip2 => ".bz2",
            Codec::Deflate => ".Z",
            Codec::Gzip => ".gz",
            Codec::Lz4 => ".lz4",
            Codec::Xz => ".xz",
            Codec::Zstd => ".zst",
        };
        String::from_str(text)
    }
}

impl Default for Codec {
    fn default() -> (r: Codec)
        ensures
            r == Codec::Plain,
    {
        Codec::Plain
    }
}

} // verus!
