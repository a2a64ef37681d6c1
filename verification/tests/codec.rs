use tarball::Codec;

#[test]
fn extension_of_each_codec() {
    assert_eq!(Codec::Plain.extension(), "");
    assert_eq!(Codec::Bzip2.extension(), ".bz2");
    assert_eq!(Codec::Deflate.extension(), ".Z");
    assert_eq!(Codec::Gzip.extension(), ".gz");
    assert_eq!(Codec::Lz4.extension(), ".lz4");
    assert_eq!(Codec::Xz.extension(), ".xz");
    assert_eq!(Codec::Zstd.extension(), ".zst");
}

#[test]
fn default_codec_does_not_compress() {
    assert_eq!(Codec::default(), Codec::Plain);
}

#[test]
fn extensions_tell_codecs_apart() {
    let all = [
        Codec::Plain,
        Codec::Bzip2,
        Codec::Deflate,
        Codec::Gzip,
        Codec::Lz4,
        Codec::Xz,
        Codec::Zstd,
    ];
    for (i, a) in all.iter().enumerate() {
        for (j, b) in all.iter().enumerate() {
            assert_eq!(i == j, a.extension() == b.extension());
        }
    }
}
