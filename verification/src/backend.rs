//! Which encoder an archive is written through, and at which of the
//! encoder's own levels.

use crate::codec::Codec;
use crate::compression::Compression;
use vstd::prelude::*;

verus! {

/// The level of `bzip2::Compression::fast()`, read with `level()`: 1.
#[verifier::external_body]
fn bzip2_fast() -> (r: u32)
    ensures
        r == 1,
{
    bzip2::Compression::fast().level()
}

/// The level of `bzip2::Compression::best()`, read with `level()`: 9.
#[verifier::external_body]
fn bzip2_best() -> (r: u32)
    ensures
        r == 9,
{
    bzip2::Compression::best().level()
}

/// The level of `bzip2::Compression::default()`, read with `level()`: 6.
#[verifier::external_body]
fn bzip2_usual() -> (r: u32)
    ensures
        r == 6,
{
    bzip2::Compression::default().level()
}

/// The level of `flate2::Compression::fast()`, read with `level()`: 1.
#[verifier::external_body]
fn flate2_fast() -> (r: u32)
    ensures
        r == 1,
{
    flate2::Compression::fast().level()
}

/// The level of `flate2::Compression::best()`, read with `level()`: 9.
#[verifier::external_body]
fn flate2_best() -> (r: u32)
    ensures
        r == 9,
{
    flate2::Compression::best().level()
}

/// The level of `flate2::Compression::default()`, read with `level()`: 6.
#[verifier::external_body]
fn flate2_usual() -> (r: u32)
    ensures
        r == 6,
{
    flate2::Compression::default().level()
}

/// The level that `level` denotes for the encoders of `flate2`: what the
/// crate assigns to a symbolic request, and a numeric request on the common
/// scale.
fn flate2_level(level: Compression) -> (r: u32)
    ensures
        r == level.common(),
{
    match level {
        Compression::Default => flate2_usual(),
        Compression::Maximum => flate2_best(),
        Compression::Minimum => flate2_fast(),
        Compression::Level(_) => level.into(),
    }
}

/// The encoder to put on an archive file, with the level to make it with.
#[derive(Clone, Copy, Debug, PartialEq, Eq, Structural)]
pub enum Backend {
    /// No encoder: the file itself takes the archive.
    File,
    /// A bzip2 encoder.
    Bzip2(u32),
    /// A raw deflate encoder.
    Deflate(u32),
    /// A gzip encoder.
    Gzip(u32),
    /// An LZ4 frame encoder; level 0 is the encoder's own choice.
    Lz4(u32),
    /// An xz encoder.
    Xz(u32),
    /// A Zstandard encoder; level 0 is the encoder's own choice.
    Zstd(i32),
}

impl Backend {
    /// The encoder for `codec` at the level that `level` denotes there.
    /// Deflate, gzip and xz take the common scale from 0 to 9. bzip2 has no
    /// level 0 and runs from 1 to 9, with 6 as the usual level. LZ4 runs from
    /// 1 to 16 and Zstandard from 1 to 21, both with 0 for the usual level.
    pub open spec fn of(codec: Codec, level: Compression) -> Backend {
        match codec {
            Codec::Plain => Backend::File,
            Codec::Bzip2 => Backend::Bzip2(level.custom(1, 9, 6) as u32),
            Codec::Deflate => Backend::Deflate(level.common() as u32),
            Codec::Gzip => Backend::Gzip(level.common() as u32),
            Codec::Lz4 => Backend::Lz4(level.custom(1, 16, 0) as u32),
            Codec::Xz => Backend::Xz(level.common() as u32),
            Codec::Zstd => Backend::Zstd(level.custom(1, 21, 0) as i32),
        }
    }

    /// The codec whose encoder this is.
    pub open spec fn codec_of(self) -> Codec {
        match self {
            Backend::File => Codec::Plain,
            Backend::Bzip2(_) => Codec::Bzip2,
            Backend::Deflate(_) => Codec::Deflate,
            Backend::Gzip(_) => Codec::Gzip,
            Backend::Lz4(_) => Codec::Lz4,
            Backend::Xz(_) => Codec::Xz,
            Backend::Zstd(_) => Codec::Zstd,
        }
    }

    /// The level is one that the encoder takes: 1 to 9 for bzip2, up to 9 for
    /// deflate, gzip and xz, up to 16 for LZ4, 0 to 21 for Zstandard.
    pub open spec fn within_bounds(self) -> bool {
        match self {
            Backend::File => true,
            Backend::Bzip2(level) => 1 <= level <= 9,
            Backend::Deflate(level) => level <= 9,
            Backend::Gzip(level) => level <= 9,
            Backend::Lz4(level) => level <= 16,
            Backend::Xz(level) => level <= 9,
            Backend::Zstd(level) => 0 <= level <= 21,
        }
    }

    /// Selects the encoder for `codec` and finds the level that `level` denotes there.
    pub fn select(codec: Codec, level: Compression) -> (r: Backend)
        ensures
            r == Backend::of(codec, level),
            r.codec_of() == codec,
            r.within_bounds(),
    {
        match codec {
            Codec::Plain => Backend::File,
            Codec::Bzip2 => Backend::Bzip2(
                level.into_custom(bzip2_fast(), bzip2_best(), bzip2_usual()),
            ),
            Codec::Deflate => Backend::Deflate(flate2_level(level)),
            Codec::Gzip => Backend::Gzip(flate2_level(level)),
            Codec::Lz4 => Backend::Lz4(level.into_custom(1, 16, 0)),
            Codec::Xz => Backend::Xz(level.into()),
            Codec::Zstd => Backend::Zstd(level.into_custom_signed(1, 21, 0)),
        }
    }

    /// The codec whose encoder this is.
    pub fn codec(&self) -> (r: Codec)
        ensures
            r == self.codec_of(),
    {
        match self {
            Backend::File => Codec::Plain,
            Backend::Bzip2(_) => Codec::Bzip2,
            Backend::Deflate(_) => Codec::Deflate,
            Backend::Gzip(_) => Codec::Gzip,
            Backend::Lz4(_) => Codec::Lz4,
            Backend::Xz(_) => Codec::Xz,
            Backend::Zstd(_) => Codec::Zstd,
        }
    }
}

/// Whatever is asked for, the encoder is that of the codec and is made at a
/// level it takes.
pub proof fn selected_level_is_taken(codec: Codec, level: Compression)
    ensures
        Backend::of(codec, level).within_bounds(),
        Backend::of(codec, level).codec_of() == codec,
{
}

/// A numeric request from 1 to 9 is met as it stands by every encoder.
pub proof fn common_levels_are_kept(codec: Codec, n: u32)
    requires
        1 <= n <= 9,
    ensures
        Backend::of(codec, Compression::Level(n)) == match codec {
            Codec::Plain => Backend::File,
            Codec::Bzip2 => Backend::Bzip2(n),
            Codec::Deflate => Backend::Deflate(n),
            Codec::Gzip => Backend::Gzip(n),
            Codec::Lz4 => Backend::Lz4(n),
            Codec::Xz => Backend::Xz(n),
            Codec::Zstd => Backend::Zstd(n as i32),
        },
{
}

/// A numeric request for level 0 is met as it stands where the encoder has
/// such a level of its own meaning, and becomes the fastest level elsewhere.
pub proof fn level_zero_by_codec(codec: Codec)
    ensures
        Backend::of(codec, Compression::Level(0)) == match codec {
            Codec::Plain => Backend::File,
            Codec::Bzip2 => Backend::Bzip2(1),
            Codec::Deflate => Backend::Deflate(0),
            Codec::Gzip => Backend::Gzip(0),
            Codec::Lz4 => Backend::Lz4(1),
            Codec::Xz => Backend::Xz(0),
            Codec::Zstd => Backend::Zstd(1),
        },
{
}

} // verus!
