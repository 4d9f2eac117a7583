//! The compression formats and the names of the files they produce.
use vstd::prelude::*;
use crate::paths::{add_extension, with_extension};
use crate::codecs::{brotli_compress, deflate_compress, gzip_compress, lzw_compress, zstd_compress, brotli_stream, deflate_stream, gzip_stream, lzw_stream, zstd_frame, gzip_header, gzip_trailer, zstd_magic};

verus! {

/// A compression format, with the parameter it needs.
#[derive(PartialEq, Eq, Structural, Clone, Copy, Debug, PartialOrd, Ord)]
pub enum CompressType {
    Brotli,
    Deflate,
    Gzip,
    /// LZW ("compress") with the given minimum code size.
    Lzw(u8),
    /// Zstandard at the given level.
    Zstd(i32),
}

/// The file extension of each format, without a leading dot.
pub open spec fn spec_extension(t: CompressType) -> Seq<char> {
    match t {
        CompressType::Brotli => seq!['b', 'r'],
        CompressType::Deflate => seq!['z', 'z'],
        CompressType::Gzip => seq!['g', 'z'],
        CompressType::Lzw(_) => seq!['Z'],
        CompressType::Zstd(_) => seq!['z', 's', 't'],
    }
}

/// Brotli settings: a 4096-byte buffer, quality 11 and a 2^24-byte window.
pub const BROTLI_BUFFER_SIZE: usize = 4096;
pub const BROTLI_QUALITY: u32 = 11;
pub const BROTLI_WINDOW_BITS: u32 = 24;
/// Deflate and gzip run at flate2's best level.
pub const FLATE_LEVEL: u32 = 9;

/// An error reported by a compressor.
#[derive(Debug)]
pub enum CompressError {
    Io(std::io::Error),
}

/// The LZW minimum code sizes that the encoder handles.
pub open spec fn lzw_code_size_supported(t: CompressType) -> bool {
    match t {
        CompressType::Lzw(size) => 8 <= size <= 15,
        _ => true,
    }
}

/// The bytes that format `t` makes of `input`, or `None` where its
/// compressor reports an error.
pub open spec fn spec_compressed(t: CompressType, input: Seq<u8>) -> Option<Seq<u8>> {
    match t {
        CompressType::Brotli => brotli_stream(
            BROTLI_BUFFER_SIZE,
            BROTLI_QUALITY,
            BROTLI_WINDOW_BITS,
            input,
        ),
        CompressType::Deflate => deflate_stream(FLATE_LEVEL, input),
        CompressType::Gzip => gzip_stream(FLATE_LEVEL, input),
        CompressType::Lzw(size) => lzw_stream(size, input),
        CompressType::Zstd(level) => zstd_frame(level, input),
    }
}

/// The name of the file that holds `original` compressed in format `t`.
pub open spec fn spec_output_name(t: CompressType, original: Seq<char>) -> Seq<char> {
    with_extension(original, spec_extension(t))
}

impl CompressType {
    /// The extension that the output files of this format carry.
    pub fn extension(&self) -> (ext: &'static str)
        ensures
            ext@ == spec_extension(*self),
    {
        match self {
            CompressType::Brotli => {
                proof {
                    reveal_strlit("br");
                }
                "br"
            },
            CompressType::Deflate => {
                proof {
                    reveal_strlit("zz");
                }
                "zz"
            },
            CompressType::Gzip => {
                proof {
                    reveal_strlit("gz");
                }
                "gz"
            },
            CompressType::Lzw(_) => {
                proof {
                    reveal_strlit("Z");
                }
                "Z"
            },
            CompressType::Zstd(_) => {
                proof {
                    reveal_strlit("zst");
                }
                "zst"
            },
        }
    }

    /// Compresses `input` in this format. The result is the compressor's
    /// output for this format's settings, or its error exactly where that
    /// compressor reports one. A gzip result begins with the gzip header and
    /// ends with the CRC-32 and length of the input; a zstd result begins
    /// with the zstd magic number. LZW compression always succeeds.
    pub fn compress(&self, input: &[u8]) -> (r: Result<Vec<u8>, CompressError>)
        requires
            lzw_code_size_supported(*self),
        ensures
            match r {
                Ok(v) => spec_compressed(*self, input@) == Some(v@),
                Err(_) => spec_compressed(*self, input@) is None,
            },
            *self == CompressType::Gzip ==> (r matches Ok(v) ==> v@.len() >= 18 && v@.subrange(0, 10)
                == gzip_header(FLATE_LEVEL) && v@.subrange(v@.len() - 8, v@.len() as int)
                == gzip_trailer(input@)),
            *self is Zstd ==> (r matches Ok(v) ==> v@.len() >= 4 && v@.subrange(0, 4) == zstd_magic()),
            *self is Lzw ==> r is Ok,
    {
        let out = match self {
            CompressType::Brotli => brotli_compress(
                input,
                BROTLI_BUFFER_SIZE,
                BROTLI_QUALITY,
                BROTLI_WINDOW_BITS,
            ),
            CompressType::Deflate => deflate_compress(input, FLATE_LEVEL),
            CompressType::Gzip => gzip_compress(input, FLATE_LEVEL),
            CompressType::Lzw(size) => lzw_compress(input, *size),
            CompressType::Zstd(level) => zstd_compress(input, *level),
        };
        match out {
            Ok(v) => Ok(v),
            Err(e) => Err(CompressError::Io(e)),
        }
    }

    /// The name of the compressed output of `original` in this format:
    /// `original` followed by a dot and the extension.
    pub fn get_filename(&self, original: &str) -> (name: String)
        ensures
            name@ == spec_output_name(*self, original@),
            name@ == original@ + seq!['.'] + spec_extension(*self),
    {
        add_extension(original, self.extension())
    }
}

/// Two formats of different kinds never write to the same file: the output
/// names of one original differ unless both formats have the same extension,
/// which happens only for two LZW or two zstd settings.
pub proof fn lemma_output_names_distinct(a: CompressType, b: CompressType, original: Seq<char>)
    requires
        spec_extension(a) != spec_extension(b),
    ensures
        spec_output_name(a, original) != spec_output_name(b, original),
{
    let na = spec_output_name(a, original);
    let nb = spec_output_name(b, original);
    let k = original.len() + 1;
    assert(na.subrange(k as int, na.len() as int) =~= spec_extension(a));
    assert(nb.subrange(k as int, nb.len() as int) =~= spec_extension(b));
}

/// Whether two formats are of the same kind (LZW settings count as one kind,
/// zstd levels as another).
pub open spec fn same_kind(a: CompressType, b: CompressType) -> bool {
    match (a, b) {
        (CompressType::Brotli, CompressType::Brotli) => true,
        (CompressType::Deflate, CompressType::Deflate) => true,
        (CompressType::Gzip, CompressType::Gzip) => true,
        (CompressType::Lzw(_), CompressType::Lzw(_)) => true,
        (CompressType::Zstd(_), CompressType::Zstd(_)) => true,
        _ => false,
    }
}

/// Each extension is non-empty and has no leading dot, and two formats share
/// an extension exactly when they are of the same kind.
pub proof fn lemma_extension_shape(a: CompressType, b: CompressType)
    ensures
        spec_extension(a).len() > 0,
        spec_extension(a)[0] != '.',
        spec_extension(a) == spec_extension(b) <==> same_kind(a, b),
{
    if !same_kind(a, b) {
        let ea = spec_extension(a);
        let eb = spec_extension(b);
        if ea.len() == eb.len() {
            assert(ea[0] != eb[0] || ea[1] != eb[1]);
        }
        assert(ea != eb);
    }
}


/// The settings each format compresses with, as the tool fixes them:
/// brotli with a 4096-byte buffer, quality 11 and a 24-bit window; deflate
/// and gzip at flate2's best level, 9; LZW with the format's minimum code
/// size; zstd at the format's level.
pub proof fn lemma_format_settings(input: Seq<u8>, size: u8, level: i32)
    ensures
        spec_compressed(CompressType::Brotli, input) == brotli_stream(4096, 11, 24, input),
        spec_compressed(CompressType::Deflate, input) == deflate_stream(9, input),
        spec_compressed(CompressType::Gzip, input) == gzip_stream(9, input),
        spec_compressed(CompressType::Lzw(size), input) == lzw_stream(size, input),
        spec_compressed(CompressType::Zstd(level), input) == zstd_frame(level, input),
{
}

} // verus!
