use std::io::Read;

use precompress::compress_type::{CompressError, CompressType};
use precompress::paths::add_extension;

fn sample() -> Vec<u8> {
    let mut v = Vec::new();
    for i in 0..2000u32 {
        v.extend_from_slice(format!("line {} of a text file\n", i % 37).as_bytes());
    }
    v
}

fn compressed(t: CompressType, input: &[u8]) -> Vec<u8> {
    match t.compress(input) {
        Ok(v) => v,
        Err(CompressError::Io(e)) => panic!("compression failed: {}", e),
    }
}

#[test]
fn extension_of_each_format() {
    assert_eq!(CompressType::Brotli.extension(), "br");
    assert_eq!(CompressType::Deflate.extension(), "zz");
    assert_eq!(CompressType::Gzip.extension(), "gz");
    assert_eq!(CompressType::Lzw(8).extension(), "Z");
    assert_eq!(CompressType::Lzw(12).extension(), "Z");
    assert_eq!(CompressType::Zstd(10).extension(), "zst");
}

#[test]
fn get_filename_appends_extension() {
    assert_eq!(CompressType::Brotli.get_filename("site/index.html"), "site/index.html.br");
    assert_eq!(CompressType::Deflate.get_filename("a.css"), "a.css.zz");
    assert_eq!(CompressType::Gzip.get_filename("a.css"), "a.css.gz");
    assert_eq!(CompressType::Lzw(9).get_filename("a.css"), "a.css.Z");
    assert_eq!(CompressType::Zstd(3).get_filename("a.css"), "a.css.zst");
}

#[test]
fn add_extension_inserts_dot() {
    assert_eq!(add_extension("a/b.txt", "gz"), "a/b.txt.gz");
    assert_eq!(add_extension("a/b.txt", ".md5"), "a/b.txt.md5");
    assert_eq!(add_extension("a/b.txt", ".gz"), add_extension("a/b.txt", "gz"));
    assert_eq!(add_extension("", "x"), ".x");
    assert_eq!(add_extension("a", ""), "a.");
}

#[test]
fn gzip_output_has_header_and_round_trips() {
    let input = sample();
    let out = compressed(CompressType::Gzip, &input);
    assert_eq!(&out[..10], &[0x1f, 0x8b, 8, 0, 0, 0, 0, 0, 2, 255]);
    let mut back = Vec::new();
    flate2::read::GzDecoder::new(&out[..]).read_to_end(&mut back).unwrap();
    assert_eq!(back, input);
    assert!(out.len() < input.len());
}

#[test]
fn deflate_output_round_trips() {
    let input = sample();
    let out = compressed(CompressType::Deflate, &input);
    let mut back = Vec::new();
    flate2::read::DeflateDecoder::new(&out[..]).read_to_end(&mut back).unwrap();
    assert_eq!(back, input);
}

#[test]
fn brotli_output_round_trips() {
    let input = sample();
    let out = compressed(CompressType::Brotli, &input);
    let mut back = Vec::new();
    brotli::Decompressor::new(&out[..], 4096).read_to_end(&mut back).unwrap();
    assert_eq!(back, input);
}

#[test]
fn zstd_output_round_trips() {
    let input = sample();
    let out = compressed(CompressType::Zstd(10), &input);
    assert_eq!(&out[..4], &[0x28, 0xb5, 0x2f, 0xfd]);
    assert_eq!(zstd::stream::decode_all(&out[..]).unwrap(), input);
}

#[test]
fn lzw_output_round_trips() {
    let input = sample();
    let out = compressed(CompressType::Lzw(8), &input);
    let mut decoder = lzw::Decoder::new(lzw::LsbReader::new(), 8);
    let mut rest = &out[..];
    let mut back = Vec::new();
    while !rest.is_empty() {
        let (used, bytes) = decoder.decode_bytes(rest).unwrap();
        back.extend_from_slice(bytes);
        if used == 0 {
            break;
        }
        rest = &rest[used..];
    }
    assert_eq!(back, input);
}

#[test]
fn compression_is_deterministic() {
    let input = sample();
    for t in [
        CompressType::Brotli,
        CompressType::Deflate,
        CompressType::Gzip,
        CompressType::Lzw(8),
        CompressType::Zstd(10),
    ] {
        assert_eq!(compressed(t, &input), compressed(t, &input));
    }
}

#[test]
fn output_names_of_different_kinds_differ() {
    let kinds = [
        CompressType::Brotli,
        CompressType::Deflate,
        CompressType::Gzip,
        CompressType::Lzw(8),
        CompressType::Zstd(3),
    ];
    for (i, a) in kinds.iter().enumerate() {
        for (j, b) in kinds.iter().enumerate() {
            let same = a.get_filename("x.js") == b.get_filename("x.js");
            assert_eq!(same, i == j);
        }
    }
    assert_eq!(CompressType::Lzw(8).get_filename("x"), CompressType::Lzw(12).get_filename("x"));
}

#[test]
fn gzip_output_ends_with_crc_and_length() {
    let input = sample();
    let out = compressed(CompressType::Gzip, &input);
    let mut crc = flate2::Crc::new();
    crc.update(&input);
    let n = out.len();
    assert_eq!(&out[n - 8..n - 4], &crc.sum().to_le_bytes());
    assert_eq!(&out[n - 4..], &(input.len() as u32).to_le_bytes());
    // The standard check value of CRC-32.
    let mut check = flate2::Crc::new();
    check.update(b"123456789");
    assert_eq!(check.sum(), 0xCBF4_3926);
}

#[test]
fn deflate_output_is_a_raw_stream() {
    let input = sample();
    let out = compressed(CompressType::Deflate, &input);
    assert_ne!(&out[..2], &[0x1f, 0x8b]);
    let mut back = Vec::new();
    assert!(flate2::read::ZlibDecoder::new(&out[..]).read_to_end(&mut back).is_err() || back != input);
}

#[test]
fn lzw_succeeds_for_every_supported_size() {
    // Above 11 the dictionary is reset after every byte, which is slow on
    // long inputs; short ones show that the call succeeds.
    for size in 8u8..=15 {
        let long = if size <= 11 { sample() } else { b"body { color: red; }".to_vec() };
        for input in [Vec::new(), vec![0u8, 255, 0, 255], long] {
            assert!(CompressType::Lzw(size).compress(&input).is_ok(), "size {}", size);
        }
    }
}
