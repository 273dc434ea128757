//! Result aggregation: the totals and the overall ratio behind the final
//! summary block. Sums saturate at the integer limit instead of wrapping;
//! for every realistic batch they are exact.

use vstd::prelude::*;

use crate::codec::spec_ratio_centi;
use crate::codec::ratio_centi;
use crate::models::CompressionResult;
use crate::models::DecompressionResult;

verus! {

/// Aggregate of one compression batch: how many files were compressed,
/// their total sizes before and after, and the overall size reduction in
/// hundredths of a percent (same zero-guard formula as per file).
#[derive(Debug, Clone, Copy, PartialEq, Eq, Structural)]
pub struct CompressionSummary {
    pub files: usize,
    pub total_original: u64,
    pub total_compressed: u64,
    pub overall_ratio_centi: u64,
}

/// Aggregate of one decompression batch: how many outcomes were recorded,
/// how many of them succeeded, and the total sizes before and after.
#[derive(Debug, Clone, Copy, PartialEq, Eq, Structural)]
pub struct DecompressionSummary {
    pub files: usize,
    pub successes: usize,
    pub total_compressed: u64,
    pub total_decompressed: u64,
}

/// `x` clamped to the `u64` range from above.
pub open spec fn spec_sat_u64(x: int) -> int {
    if x <= u64::MAX {
        x
    } else {
        u64::MAX as int
    }
}

/// The sum of the original sizes of a batch's compression outcomes.
pub open spec fn spec_sum_original(s: Seq<CompressionResult>) -> int
    decreases s.len(),
{
    if s.len() == 0 {
        0
    } else {
        spec_sum_original(s.drop_last()) + s.last().original_size
    }
}

/// The sum of the compressed sizes of a batch's compression outcomes.
pub open spec fn spec_sum_compressed(s: Seq<CompressionResult>) -> int
    decreases s.len(),
{
    if s.len() == 0 {
        0
    } else {
        spec_sum_compressed(s.drop_last()) + s.last().compressed_size
    }
}

/// The sum of the compressed sizes of a batch's decompression outcomes.
pub open spec fn spec_sum_dec_compressed(s: Seq<DecompressionResult>) -> int
    decreases s.len(),
{
    if s.len() == 0 {
        0
    } else {
        spec_sum_dec_compressed(s.drop_last()) + s.last().compressed_size
    }
}

/// The sum of the decompressed sizes of a batch's decompression outcomes.
pub open spec fn spec_sum_decompressed(s: Seq<DecompressionResult>) -> int
    decreases s.len(),
{
    if s.len() == 0 {
        0
    } else {
        spec_sum_decompressed(s.drop_last()) + s.last().decompressed_size
    }
}

/// How many of a batch's decompression outcomes succeeded.
pub open spec fn spec_count_successes(s: Seq<DecompressionResult>) -> int
    decreases s.len(),
{
    if s.len() == 0 {
        0
    } else {
        spec_count_successes(s.drop_last()) + if s.last().success {
            1int
        } else {
            0int
        }
    }
}

/// Adds with saturation at the `u64` limit.
fn sat_add_u64(a: u64, b: u64) -> (r: u64)
    ensures
        r == spec_sat_u64(a + b),
{
    if a > u64::MAX - b {
        u64::MAX
    } else {
        a + b
    }
}

/// Sums a compression batch's sizes and computes the overall ratio the
/// summary reports.
pub fn summarize_compression(results: &Vec<CompressionResult>) -> (s: CompressionSummary)
    ensures
        s.files == results@.len(),
        s.total_original == spec_sat_u64(spec_sum_original(results@)),
        s.total_compressed == spec_sat_u64(spec_sum_compressed(results@)),
        s.overall_ratio_centi == spec_ratio_centi(s.total_original, s.total_compressed),
        s.overall_ratio_centi <= 10000,
{
    let mut total_original: u64 = 0;
    let mut total_compressed: u64 = 0;
    let mut i: usize = 0;
    while i < results.len()
        invariant
            i <= results.len(),
            total_original == spec_sat_u64(spec_sum_original(results@.subrange(0, i as int))),
            total_compressed == spec_sat_u64(spec_sum_compressed(results@.subrange(0, i as int))),
        decreases results.len() - i,
    {
        proof {
            let prefix = results@.subrange(0, i + 1);
            assert(prefix.drop_last() =~= results@.subrange(0, i as int));
            assert(prefix.last() == results@[i as int]);
        }
        total_original = sat_add_u64(total_original, results[i].original_size);
        total_compressed = sat_add_u64(total_compressed, results[i].compressed_size);
        i = i + 1;
    }
    proof {
        assert(results@.subrange(0, results@.len() as int) =~= results@);
    }
    CompressionSummary {
        files: results.len(),
        total_original,
        total_compressed,
        overall_ratio_centi: ratio_centi(total_original, total_compressed),
    }
}

/// Sums a decompression batch's sizes and counts its successes.
pub fn summarize_decompression(results: &Vec<DecompressionResult>) -> (s: DecompressionSummary)
    ensures
        s.files == results@.len(),
        s.successes == spec_count_successes(results@),
        s.total_compressed == spec_sat_u64(spec_sum_dec_compressed(results@)),
        s.total_decompressed == spec_sat_u64(spec_sum_decompressed(results@)),
{
    let mut successes: usize = 0;
    let mut total_compressed: u64 = 0;
    let mut total_decompressed: u64 = 0;
    let mut i: usize = 0;
    while i < results.len()
        invariant
            i <= results.len(),
            successes <= i,
            successes == spec_count_successes(results@.subrange(0, i as int)),
            total_compressed == spec_sat_u64(
                spec_sum_dec_compressed(results@.subrange(0, i as int)),
            ),
            total_decompressed == spec_sat_u64(
                spec_sum_decompressed(results@.subrange(0, i as int)),
            ),
        decreases results.len() - i,
    {
        proof {
            let prefix = results@.subrange(0, i + 1);
            assert(prefix.drop_last() =~= results@.subrange(0, i as int));
            assert(prefix.last() == results@[i as int]);
        }
        if results[i].success {
            successes = successes + 1;
        }
        total_compressed = sat_add_u64(total_compressed, results[i].compressed_size);
        total_decompressed = sat_add_u64(total_decompressed, results[i].decompressed_size);
        i = i + 1;
    }
    proof {
        assert(results@.subrange(0, results@.len() as int) =~= results@);
    }
    DecompressionSummary { files: results.len(), successes, total_compressed, total_decompressed }
}

} // verus!
