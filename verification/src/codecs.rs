//! The compressors of the outside crates, each behind one trusted function.
//!
//! Every compressor is deterministic: what it returns for a given setting and
//! input, its output or an error, is a function of the two, which the names
//! below stand for (`None` where the crate reports an error). Writing into a
//! `Vec` is the only I/O they do; an error is handed back as it is.
use std::io::Write;
use vstd::prelude::*;

verus! {

#[verifier::external_type_specification]
#[verifier::external_body]
pub struct ExIoError(std::io::Error);

/// The brotli stream that `brotli::CompressorWriter` writes for `input`
/// (buffer size, quality and window as given), followed by a flush and the
/// end of the stream.
pub uninterp spec fn brotli_stream(buffer_size: usize, quality: u32, lgwin: u32, input: Seq<u8>) -> Option<Seq<u8>>;

/// The raw deflate stream that `flate2::write::DeflateEncoder` writes for
/// `input` at the given level, flushed and finished.
pub uninterp spec fn deflate_stream(level: u32, input: Seq<u8>) -> Option<Seq<u8>>;

/// The gzip member that `flate2::write::GzEncoder` writes for `input` at the
/// given level, flushed and finished.
pub uninterp spec fn gzip_stream(level: u32, input: Seq<u8>) -> Option<Seq<u8>>;

/// The LSB-first code stream that `lzw::Encoder` writes for `input` with the
/// given minimum code size, ended when the encoder is dropped.
pub uninterp spec fn lzw_stream(min_code_size: u8, input: Seq<u8>) -> Option<Seq<u8>>;

/// The zstd frame that `zstd::stream::encode_all` returns for `input` at the
/// given level.
pub uninterp spec fn zstd_frame(level: i32, input: Seq<u8>) -> Option<Seq<u8>>;

/// The ten header bytes that flate2's `GzEncoder::new` writes: magic number,
/// deflate method, no flags, no time stamp, the level hint and "unknown
/// system" (255).
pub open spec fn gzip_header(level: u32) -> Seq<u8> {
    let xfl: u8 = if level >= 9 {
        2
    } else if level <= 1 {
        4
    } else {
        0
    };
    seq![0x1fu8, 0x8bu8, 8u8, 0u8, 0u8, 0u8, 0u8, 0u8, xfl, 255u8]
}

/// One step of the bitwise CRC-32 (IEEE, reflected polynomial
/// 0xEDB88320) over `k` bits.
pub open spec fn crc32_shift(c: u32, k: nat) -> u32
    decreases k,
{
    if k == 0 {
        c
    } else {
        crc32_shift(
            if c & 1u32 == 1u32 {
                (c >> 1u32) ^ 0xEDB88320u32
            } else {
                c >> 1u32
            },
            (k - 1) as nat,
        )
    }
}

/// The CRC-32 register after the bytes `data`.
pub open spec fn crc32_update(c: u32, data: Seq<u8>) -> u32
    decreases data.len(),
{
    if data.len() == 0 {
        c
    } else {
        crc32_update(crc32_shift(c ^ (data[0] as u32), 8), data.drop_first())
    }
}

/// The CRC-32 checksum of `data`, as gzip uses it.
pub open spec fn crc32(data: Seq<u8>) -> u32 {
    crc32_update(0xFFFF_FFFFu32, data) ^ 0xFFFF_FFFFu32
}

/// The four bytes of `x`, least significant first.
pub open spec fn le32(x: u32) -> Seq<u8> {
    seq![(x & 0xffu32) as u8, ((x >> 8u32) & 0xffu32) as u8, ((x >> 16u32) & 0xffu32) as u8, ((x >> 24u32) & 0xffu32) as u8]
}

/// The eight bytes that end a gzip member of `input`: the CRC-32 of the
/// input and its length modulo 2^32, each least significant byte first.
pub open spec fn gzip_trailer(input: Seq<u8>) -> Seq<u8> {
    le32(crc32(input)) + le32((input.len() % 0x1_0000_0000) as u32)
}

/// The four bytes that open every zstd frame: its magic number 0xFD2FB528,
/// least significant byte first.
pub open spec fn zstd_magic() -> Seq<u8> {
    seq![0x28u8, 0xb5u8, 0x2fu8, 0xfdu8]
}

/// Calls `brotli::CompressorWriter::new` on an empty `Vec`, then `write_all`,
/// `flush` and `into_inner`. Claimed: the result is
/// `brotli_stream` of the settings and the input: its bytes, or an error
/// exactly where the name is `None`.
#[verifier::external_body]
pub(crate) fn brotli_compress(input: &[u8], buffer_size: usize, quality: u32, lgwin: u32) -> (r: Result<Vec<u8>, std::io::Error>)
    ensures
        match r {
            Ok(v) => brotli_stream(buffer_size, quality, lgwin, input@) == Some(v@),
            Err(_) => brotli_stream(buffer_size, quality, lgwin, input@) is None,
        },
{
    let mut writer = brotli::CompressorWriter::new(Vec::new(), buffer_size, quality, lgwin);
    writer.write_all(input)?;
    writer.flush()?;
    Ok(writer.into_inner())
}

/// Calls `flate2::write::DeflateEncoder::new` on an empty `Vec` with
/// `flate2::Compression::new(level)`, then `write_all`, `flush` and `finish`.
/// Claimed: the bytes, or an error exactly where the name is `None`, are
/// `deflate_stream` of the level and input.
#[verifier::external_body]
pub(crate) fn deflate_compress(input: &[u8], level: u32) -> (r: Result<Vec<u8>, std::io::Error>)
    requires
        level <= 9,
    ensures
        match r {
            Ok(v) => deflate_stream(level, input@) == Some(v@),
            Err(_) => deflate_stream(level, input@) is None,
        },
{
    let mut encoder = flate2::write::DeflateEncoder::new(Vec::new(), flate2::Compression::new(level));
    encoder.write_all(input)?;
    encoder.flush()?;
    encoder.finish()
}

/// Calls `flate2::write::GzEncoder::new` on an empty `Vec` with
/// `flate2::Compression::new(level)`, then `write_all`, `flush` and `finish`.
/// Claimed: the bytes, or an error exactly where the name is `None`, are
/// `gzip_stream` of the level and input; the bytes begin with the header
/// that flate2's default `GzBuilder` writes and end with the trailer that
/// `GzEncoder::try_finish` writes from the CRC and length of what was
/// written.
#[verifier::external_body]
pub(crate) fn gzip_compress(input: &[u8], level: u32) -> (r: Result<Vec<u8>, std::io::Error>)
    requires
        level <= 9,
    ensures
        match r {
            Ok(v) => gzip_stream(level, input@) == Some(v@),
            Err(_) => gzip_stream(level, input@) is None,
        },
        r matches Ok(v) ==> v@.len() >= 18 && v@.subrange(0, 10) == gzip_header(level)
            && v@.subrange(v@.len() - 8, v@.len() as int) == gzip_trailer(input@),
{
    let mut encoder = flate2::write::GzEncoder::new(Vec::new(), flate2::Compression::new(level));
    encoder.write_all(input)?;
    encoder.flush()?;
    encoder.finish()
}

/// Calls `lzw::Encoder::new` over `lzw::LsbWriter::new` on an empty `Vec`,
/// then `encode_bytes`, and drops the encoder, which writes the end code.
/// The crate indexes out of bounds for a minimum code size under 8 and
/// shifts past the width of its codes above 15, so both are left out.
/// Claimed: the bytes are `lzw_stream` of the size and input, and the call
/// succeeds: the encoder and its bit writer report an error only where a
/// write into the sink fails, and the sink here is a `Vec`, which takes
/// every write.
#[verifier::external_body]
pub(crate) fn lzw_compress(input: &[u8], min_code_size: u8) -> (r: Result<Vec<u8>, std::io::Error>)
    requires
        8 <= min_code_size <= 15,
    ensures
        r is Ok,
        match r {
            Ok(v) => lzw_stream(min_code_size, input@) == Some(v@),
            Err(_) => lzw_stream(min_code_size, input@) is None,
        },
{
    let mut compressed = Vec::new();
    {
        let mut encoder = lzw::Encoder::new(lzw::LsbWriter::new(&mut compressed), min_code_size)?;
        encoder.encode_bytes(input)?;
    }
    Ok(compressed)
}

/// Calls `zstd::stream::encode_all` on the input at the given level.
/// Claimed: the bytes, or an error exactly where the name is `None`, are
/// `zstd_frame` of the level and input, and the bytes begin with the zstd
/// magic number (the crate writes frames in zstd's standard format).
#[verifier::external_body]
pub(crate) fn zstd_compress(input: &[u8], level: i32) -> (r: Result<Vec<u8>, std::io::Error>)
    ensures
        match r {
            Ok(v) => zstd_frame(level, input@) == Some(v@),
            Err(_) => zstd_frame(level, input@) is None,
        },
        r matches Ok(v) ==> v@.len() >= 4 && v@.subrange(0, 4) == zstd_magic(),
{
    zstd::stream::encode_all(input, level)
}

} // verus!
