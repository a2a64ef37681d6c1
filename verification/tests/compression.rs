use tarball::{Codec, Compression, Compressor, Mode};

#[test]
fn best_is_maximum_and_fast_is_minimum() {
    assert_eq!(Compression::best(), Compression::Maximum);
    assert_eq!(Compression::fast(), Compression::Minimum);
    assert_eq!(Compression::default(), Compression::Default);
}

#[test]
fn symbolic_requests_take_the_codec_numbers() {
    assert_eq!(Compression::Default.into_custom(1, 16, 0), 0);
    assert_eq!(Compression::Maximum.into_custom(1, 16, 0), 16);
    assert_eq!(Compression::Minimum.into_custom(1, 16, 0), 1);
    assert_eq!(Compression::Default.into_custom_signed(1, 21, 0), 0);
    assert_eq!(Compression::Maximum.into_custom_signed(1, 21, 0), 21);
    assert_eq!(Compression::Minimum.into_custom_signed(1, 21, 0), 1);
    assert_eq!(Compression::Minimum.into_custom_signed(-7, 22, 3), -7);
}

#[test]
fn numeric_request_inside_the_range_is_kept() {
    assert_eq!(Compression::Level(5).into_custom(1, 16, 0), 5);
    assert_eq!(Compression::Level(1).into_custom(1, 16, 0), 1);
    assert_eq!(Compression::Level(16).into_custom(1, 16, 0), 16);
    assert_eq!(Compression::Level(12).into_custom_signed(1, 21, 0), 12);
}

#[test]
fn numeric_request_outside_the_range_is_clamped() {
    assert_eq!(Compression::Level(0).into_custom(1, 16, 0), 1);
    assert_eq!(Compression::Level(17).into_custom(1, 16, 0), 16);
    assert_eq!(Compression::Level(u32::MAX).into_custom(1, 9, 6), 9);
    assert_eq!(Compression::Level(0).into_custom_signed(1, 21, 0), 1);
    assert_eq!(Compression::Level(22).into_custom_signed(1, 21, 0), 21);
    assert_eq!(Compression::Level(u32::MAX).into_custom_signed(1, 21, 0), 21);
    assert_eq!(Compression::Level(3).into_custom_signed(-5, -1, -3), -1);
}

#[test]
fn common_scale_runs_from_zero_to_nine() {
    assert_eq!(u32::from(Compression::Default), 6);
    assert_eq!(u32::from(Compression::Maximum), 9);
    assert_eq!(u32::from(Compression::Minimum), 1);
    assert_eq!(u32::from(Compression::Level(4)), 4);
    assert_eq!(u32::from(Compression::Level(0)), 0);
    assert_eq!(u32::from(Compression::Level(9)), 9);
    assert_eq!(u32::from(Compression::Level(10)), 9);
    assert_eq!(u32::from(Compression::Level(40)), 9);
    let level: u32 = Compression::Maximum.into();
    assert_eq!(level, 9);
}

#[test]
fn default_mode_keeps_metadata() {
    assert_eq!(Mode::default(), Mode::Normal);
    assert_ne!(Mode::default(), Mode::Minimal);
}

#[test]
fn default_compressor_is_plain() {
    assert_eq!(Compressor::default(), Compressor::Plain);
    assert_ne!(Compressor::GZip, Compressor::BZip);
    assert_ne!(Compressor::XZip, Compressor::Plain);
}

#[test]
fn each_compressor_has_its_codec() {
    assert_eq!(Compressor::Plain.codec(), Codec::Plain);
    assert_eq!(Compressor::GZip.codec(), Codec::Gzip);
    assert_eq!(Compressor::BZip.codec(), Codec::Bzip2);
    assert_eq!(Compressor::XZip.codec(), Codec::Xz);
}
