use cli_app::models::CompressionResult;
use cli_app::models::DecompressionResult;
use cli_app::report::summarize_compression;
use cli_app::report::summarize_decompression;

fn compression(name: &str, original: u64, compressed: u64, centi: u64) -> CompressionResult {
    CompressionResult {
        filename: name.to_string(),
        original_size: original,
        compressed_size: compressed,
        compression_ratio_centi: centi,
    }
}

fn decompression(name: &str, compressed: u64, decompressed: u64, success: bool) -> DecompressionResult {
    DecompressionResult {
        filename: name.to_string(),
        compressed_size: compressed,
        decompressed_size: decompressed,
        success,
    }
}

#[test]
fn compression_summary_totals_and_ratio() {
    let results = vec![
        compression("a.txt", 100, 40, 6000),
        compression("b.txt", 50, 10, 8000),
    ];
    let summary = summarize_compression(&results);
    assert_eq!(summary.files, 2);
    assert_eq!(summary.total_original, 150);
    assert_eq!(summary.total_compressed, 50);
    assert_eq!(summary.overall_ratio_centi, 6667);
}

#[test]
fn compression_summary_of_nothing() {
    let results: Vec<CompressionResult> = Vec::new();
    let summary = summarize_compression(&results);
    assert_eq!(summary.files, 0);
    assert_eq!(summary.total_original, 0);
    assert_eq!(summary.total_compressed, 0);
    assert_eq!(summary.overall_ratio_centi, 0);
}

#[test]
fn compression_summary_ratio_zero_when_expanded() {
    let results = vec![compression("a.bin", 10, 30, 0)];
    let summary = summarize_compression(&results);
    assert_eq!(summary.overall_ratio_centi, 0);
}

#[test]
fn compression_summary_saturates_instead_of_wrapping() {
    let results = vec![
        compression("big1", u64::MAX, 1, 0),
        compression("big2", u64::MAX, 1, 0),
    ];
    let summary = summarize_compression(&results);
    assert_eq!(summary.total_original, u64::MAX);
    assert_eq!(summary.total_compressed, 2);
}

#[test]
fn decompression_summary_counts_successes() {
    let results = vec![
        decompression("a.txt.gz", 30, 100, true),
        decompression("broken.gz", 0, 0, false),
        decompression("c.txt.gz", 20, 60, true),
    ];
    let summary = summarize_decompression(&results);
    assert_eq!(summary.files, 3);
    assert_eq!(summary.successes, 2);
    assert_eq!(summary.total_compressed, 50);
    assert_eq!(summary.total_decompressed, 160);
}
