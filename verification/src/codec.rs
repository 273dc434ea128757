//! Codec adapter: gzip compression and decompression of in-memory buffers,
//! output-name derivation, and the size-reduction ratio.
//!
//! The byte-level codec itself is flate2; it is reached only through the two
//! trusted wrappers below. flate2's gzip writer emits a reproducible stream
//! (its header carries a zero timestamp and a fixed operating-system byte),
//! so the bytes it produces are a function of the input bytes and the
//! compression level alone; the uninterpreted functions `gzip_of` and
//! `inflate_of` name those results.

use std::io::Read;
use std::io::Write;
use vstd::prelude::*;

use crate::models::AppError;
use crate::models::CompressionResult;
use crate::models::DecompressionResult;

verus! {

/// The gzip stream that flate2's encoder produces from `data` at effort
/// `level`.
pub uninterp spec fn gzip_of(data: Seq<u8>, level: u32) -> Seq<u8>;

/// What flate2's decoder makes of `data`: the decoded payload of the gzip
/// member at its front, or `None` when the stream is malformed or
/// truncated.
pub uninterp spec fn inflate_of(data: Seq<u8>) -> Option<Seq<u8>>;

/// Relies on flate2's `write::GzEncoder` over a `Vec<u8>` sink: the encoder
/// is a pure function of the input bytes and the level (its header has a
/// fixed timestamp and operating-system byte), and a completed stream holds
/// at least the 10-byte header and the 8-byte checksum trailer. Encoding
/// into an in-memory sink cannot fail — the write path reports only errors
/// of the underlying writer, and writes to a `Vec` never fail — so the
/// result is owed unconditionally.
#[verifier::external_body]
fn gzip_compress(data: &Vec<u8>, level: u32) -> (out: Vec<u8>)
    requires
        level <= 9,
    ensures
        out@ == gzip_of(data@, level),
        out@.len() >= 18,
{
    let mut enc = flate2::write::GzEncoder::new(Vec::new(), flate2::Compression::new(level));
    enc.write_all(data.as_slice()).expect("a Vec sink never fails");
    enc.finish().expect("a Vec sink never fails")
}

/// Everything the decoder guarantees of its result `r` on input `data`:
/// success and payload are determined by the bytes alone (through
/// `inflate_of`), and a stream the encoder produced decodes back to the
/// bytes the encoder was given.
pub open spec fn gzip_decode_post(data: Seq<u8>, r: Option<Vec<u8>>) -> bool {
    &&& (match r {
        Some(out) => inflate_of(data) == Some(out@),
        None => inflate_of(data) is None,
    })
    &&& forall|orig: Seq<u8>, level: u32|
        level <= 9 && data == #[trigger] gzip_of(orig, level) ==> (r matches Some(out) && out@
            == orig)
}

/// Relies on flate2's `read::GzDecoder` over a byte slice: whether decoding
/// succeeds, and what it yields, depend on the input bytes alone, and a
/// stream the encoder produced decodes back to the bytes it was given.
#[verifier::external_body]
fn gzip_decompress(data: &Vec<u8>) -> (r: Option<Vec<u8>>)
    ensures
        (match r {
            Some(out) => inflate_of(data@) == Some(out@),
            None => inflate_of(data@) is None,
        }),
        gzip_decode_post(data@, r),
{
    let mut dec = flate2::read::GzDecoder::new(data.as_slice());
    let mut out = Vec::new();
    match dec.read_to_end(&mut out) {
        Ok(_) => Some(out),
        Err(_) => None,
    }
}

/// The size reduction in hundredths of a percent:
/// `(original - compressed) / original * 100%`, rounded up, and 0 when the
/// input was empty or compression did not shrink it. Rounding up keeps the
/// zero case exact: any real shrink, however small, reports a positive
/// ratio.
pub open spec fn spec_ratio_centi(original: u64, compressed: u64) -> int {
    if original > 0 && compressed < original {
        ((original - compressed) * 10000 + original - 1) / (original as int)
    } else {
        0
    }
}

/// The ratio is a percentage: it always lies between 0% and 100.00%, and it
/// is exactly 0 if and only if the input was empty or compression did not
/// shrink it.
pub proof fn lemma_ratio_centi_range(original: u64, compressed: u64)
    ensures
        0 <= spec_ratio_centi(original, compressed) <= 10000,
        spec_ratio_centi(original, compressed) == 0 <==> (original == 0 || compressed
            >= original),
{
    if original > 0 && compressed < original {
        let diff = original - compressed;
        let num = diff * 10000 + original - 1;
        vstd::arithmetic::mul::lemma_mul_inequality(1, diff, 10000);
        vstd::arithmetic::div_mod::lemma_div_is_ordered(original as int, num, original as int);
        vstd::arithmetic::div_mod::lemma_div_by_self(original as int);
        vstd::arithmetic::mul::lemma_mul_inequality(diff, original as int, 10000);
        vstd::arithmetic::div_mod::lemma_div_is_ordered(
            num,
            (original as int) * 10000 + original - 1,
            original as int,
        );
        vstd::arithmetic::div_mod::lemma_div_multiples_vanish_fancy(
            10000,
            original - 1,
            original as int,
        );
    }
}

/// Computes `spec_ratio_centi` exactly, widening to 128 bits so the
/// arithmetic cannot overflow.
pub fn ratio_centi(original: u64, compressed: u64) -> (r: u64)
    ensures
        r == spec_ratio_centi(original, compressed),
        r <= 10000,
{
    proof {
        lemma_ratio_centi_range(original, compressed);
    }
    if original > 0 && compressed < original {
        let diff: u128 = (original - compressed) as u128;
        assert(diff * 10000 <= 0xffff_ffff_ffff_ffff * 10000) by {
            vstd::arithmetic::mul::lemma_mul_inequality(
                diff as int,
                0xffff_ffff_ffff_ffff,
                10000,
            );
        }
        let q: u128 = (diff * 10000 + (original as u128 - 1)) / (original as u128);
        q as u64
    } else {
        0
    }
}

/// True of a file name that ends in the reserved compressed-file suffix
/// `.gz`.
pub open spec fn spec_ends_gz(s: Seq<char>) -> bool {
    &&& s.len() >= 3
    &&& s[s.len() - 3] == '.'
    &&& s[s.len() - 2] == 'g'
    &&& s[s.len() - 1] == 'z'
}

/// The file name with every trailing `.gz` suffix removed, the way a
/// trailing-match trim behaves: `a.txt.gz` becomes `a.txt`, `a.gz.gz`
/// becomes `a`, and a name without the suffix is unchanged.
pub open spec fn spec_strip_gz(s: Seq<char>) -> Seq<char>
    decreases s.len(),
{
    if spec_ends_gz(s) {
        spec_strip_gz(s.subrange(0, s.len() - 3))
    } else {
        s
    }
}

/// Whether `name` ends with the `.gz` suffix.
pub fn str_ends_with_gz(name: &str) -> (r: bool)
    ensures
        r == spec_ends_gz(name@),
{
    let n = name.unicode_len();
    n >= 3 && name.get_char(n - 3) == '.' && name.get_char(n - 2) == 'g' && name.get_char(n - 1)
        == 'z'
}

/// The output name of a compressed file: the input name with `.gz`
/// appended.
pub fn compressed_name(name: &str) -> (r: String)
    ensures
        r@ == name@ + ".gz"@,
        spec_ends_gz(r@),
        r@.len() == name@.len() + 3,
{
    let r = name.to_owned().concat(".gz");
    proof {
        reveal_strlit(".gz");
        assert(r@.len() == name@.len() + 3);
        assert(r@[r@.len() - 3] == '.' && r@[r@.len() - 2] == 'g' && r@[r@.len() - 1] == 'z');
    }
    r
}

/// The output name of a decompressed file: the input name with its trailing
/// `.gz` suffixes trimmed away.
pub fn decompressed_name(name: &str) -> (r: String)
    ensures
        r@ == spec_strip_gz(name@),
{
    let mut s: &str = name;
    while str_ends_with_gz(s)
        invariant
            spec_strip_gz(s@) == spec_strip_gz(name@),
        decreases s@.len(),
    {
        let n = s.unicode_len();
        s = s.substring_char(0, n - 3);
    }
    s.to_owned()
}

/// The outcome `compress_file` owes for input bytes `data` under name
/// `name`: the original and compressed sizes, and the exact reduction
/// ratio.
pub open spec fn compress_outcome_ok(
    name: Seq<char>,
    data: Seq<u8>,
    level: u32,
    o: CompressionResult,
) -> bool {
    &&& o.filename@ == name
    &&& o.original_size == data.len()
    &&& o.compressed_size == gzip_of(data, level).len()
    &&& o.compression_ratio_centi == spec_ratio_centi(o.original_size, o.compressed_size)
}

/// Compresses one file's bytes at the given effort level: the returned
/// pair holds the outcome record and the gzip stream to be written to
/// `<name>.gz`. In-memory compression cannot fail, so success is owed; the
/// `Result` shape stays for the failures that surround this core in the
/// application (reading and writing the files is its part).
pub fn compress_file(filename: &str, data: &Vec<u8>, level: u32) -> (r: Result<
    (CompressionResult, Vec<u8>),
    AppError,
>)
    requires
        level <= 9,
    ensures
        r is Ok,
        r matches Ok(p) ==> compress_outcome_ok(filename@, data@, level, p.0) && p.1@ == gzip_of(
            data@,
            level,
        ) && p.0.compressed_size >= 18,
{
    let out = gzip_compress(data, level);
    let original_size = data.len() as u64;
    let compressed_size = out.len() as u64;
    let outcome = CompressionResult {
        filename: filename.to_owned(),
        original_size,
        compressed_size,
        compression_ratio_centi: ratio_centi(original_size, compressed_size),
    };
    Ok((outcome, out))
}

/// The outcome `decompress_file` owes for input bytes `data` under name
/// `name`: on a well-formed stream the true sizes, on a malformed one a
/// `success == false` record with both sizes zeroed.
pub open spec fn decompress_outcome_ok(
    name: Seq<char>,
    data: Seq<u8>,
    o: DecompressionResult,
) -> bool {
    &&& o.filename@ == name
    &&& match inflate_of(data) {
        Some(payload) => {
            &&& o.success
            &&& o.compressed_size == data.len()
            &&& o.decompressed_size == payload.len()
        },
        None => {
            &&& !o.success
            &&& o.compressed_size == 0
            &&& o.decompressed_size == 0
        },
    }
}

/// Decompresses one file's bytes. The outcome record is always produced;
/// the payload to be written to the suffix-stripped output name accompanies
/// it exactly on success. A malformed stream yields `success == false` with
/// both sizes zeroed rather than an error.
pub fn decompress_file(filename: &str, data: &Vec<u8>) -> (r: (
    DecompressionResult,
    Option<Vec<u8>>,
))
    ensures
        decompress_outcome_ok(filename@, data@, r.0),
        r.1 matches Some(p) ==> inflate_of(data@) == Some(p@),
        r.0.success <==> r.1 is Some,
        forall|orig: Seq<u8>, level: u32|
            level <= 9 && data@ == #[trigger] gzip_of(orig, level) ==> r.0.success
                && (r.1 matches Some(p) && p@ == orig),
{
    match gzip_decompress(data) {
        Some(payload) => {
            let outcome = DecompressionResult {
                filename: filename.to_owned(),
                compressed_size: data.len() as u64,
                decompressed_size: payload.len() as u64,
                success: true,
            };
            (outcome, Some(payload))
        },
        None => {
            let outcome = DecompressionResult {
                filename: filename.to_owned(),
                compressed_size: 0,
                decompressed_size: 0,
                success: false,
            };
            (outcome, None)
        },
    }
}

/// Round-trip identity: decompressing the stream compression produced
/// restores the input bytes exactly, and the round trip always succeeds.
pub fn compress_then_decompress(filename: &str, data: &Vec<u8>, level: u32) -> (r: Result<
    Vec<u8>,
    AppError,
>)
    requires
        level <= 9,
    ensures
        r is Ok,
        r matches Ok(p) ==> p@ == data@,
{
    let (_outcome, stream) = compress_file(filename, data, level)?;
    let (_restored_outcome, restored) = decompress_file(filename, &stream);
    match restored {
        Some(p) => Ok(p),
        None => Err(AppError::CodecError),
    }
}

} // verus!
