//! Compresses text-like files into several formats at once (brotli, LZW
//! "compress", deflate, gzip and zstd), keeping MD5 records so that
//! unchanged files can be skipped, and cleans previously written outputs.
//!
//! The library holds the decisions of the tool; reading directories and
//! files, writing outputs, threads and terminal output belong to the caller.
pub mod paths;
pub mod codecs;
pub mod text;
pub mod digest;
pub mod compress_type;
pub mod args;
pub mod freshness;
pub mod task;
pub mod sorting;
pub mod path_order;
pub mod clean;
pub mod report;
pub mod pattern;
pub mod globs;
pub mod search;
