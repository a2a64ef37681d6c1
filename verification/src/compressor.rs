//! The short list of stream formats.

use crate::codec::Codec;
use vstd::prelude::*;

verus! {

/// Stream format of an archive, for callers that need none beyond the
/// most common three.
#[derive(Debug, PartialEq, Eq, Structural)]
pub enum Compressor {
    /// The archive is written as it is.
    Plain,
    /// gzip framing.
    GZip,
    /// bzip2 framing.
    BZip,
    /// xz framing.
    XZip,
}

impl Compressor {
    /// The codec that writes this stream format.
    pub open spec fn codec_of(self) -> Codec {
        match self {
            Compressor::Plain => Codec::Plain,
            Compressor::GZip => Codec::Gzip,
            Compressor::BZip => Codec::Bzip2,
            Compressor::XZip => Codec::Xz,
        }
    }

    /// The codec that writes this stream format.
    pub fn codec(&self) -> (r: Codec)
        ensures
            r == self.codec_of(),
    {
        match self {
            Compressor::Plain => Codec::Plain,
            Compressor::GZip => Codec::Gzip,
            Compressor::BZip => Codec::Bzip2,
            Compressor::XZip => Codec::Xz,
        }
    }
}

impl Default for Compressor {
    fn default() -> (r: Compressor)
        ensures
            r == Compressor::Plain,
    {
        Compressor::Plain
    }
}

} // verus!
