//! Data model: command-line arguments, per-file tasks and outcomes, and the
//! error kinds that the batch pipeline reports.

use vstd::prelude::*;

verus! {

/// Command-line configuration: input path, output base directory, worker
/// count and gzip compression level. The application layer parses the real
/// command line into this plain form.
#[derive(Debug)]
pub struct Args {
    pub input: String,
    pub output: String,
    pub threads: usize,
    pub level: u32,
}

/// One unit of batch work: a file name together with the file's bytes.
/// The application reads the bytes from disk; the verified core never
/// touches the filesystem.
#[derive(Debug, Clone)]
pub struct FileTask {
    pub filename: String,
    pub data: Vec<u8>,
}

/// One directory entry as the application saw it: the entry's file name and
/// whether it is a regular file (subdirectories and other entries carry
/// `is_file == false`).
#[derive(Debug, Clone)]
pub struct DirEntry {
    pub name: String,
    pub is_file: bool,
}

/// Outcome of compressing one file. `compression_ratio_centi` is the size
/// reduction in hundredths of a percent (0 ..= 10000), rounded up: it is 0
/// exactly when the input was empty or compression did not shrink it, and
/// positive for any real shrink. The application renders it as a percentage
/// with two decimals.
#[derive(Debug, Clone)]
pub struct CompressionResult {
    pub filename: String,
    pub original_size: u64,
    pub compressed_size: u64,
    pub compression_ratio_centi: u64,
}

/// Outcome of decompressing one file. On failure `success` is false and both
/// sizes are reported as zero.
#[derive(Debug, Clone)]
pub struct DecompressionResult {
    pub filename: String,
    pub compressed_size: u64,
    pub decompressed_size: u64,
    pub success: bool,
}

/// The error kinds the pipeline distinguishes: a missing input path, a
/// filesystem failure, a codec failure, and an out-of-range compression
/// level.
#[derive(Debug, Clone, Copy, PartialEq, Eq, Structural)]
pub enum AppError {
    NotFound,
    IoError,
    CodecError,
    ConfigError,
}

/// Checks the compression-effort level against the codec's supported range
/// (0 ..= 9), exactly as the command-line boundary must before any batch
/// work starts.
pub fn validate_level(level: u32) -> (r: Result<(), AppError>)
    ensures
        r is Ok <==> level <= 9,
        r is Err ==> r == Err::<(), AppError>(AppError::ConfigError),
{
    if level <= 9 {
        Ok(())
    } else {
        Err(AppError::ConfigError)
    }
}

} // verus!
