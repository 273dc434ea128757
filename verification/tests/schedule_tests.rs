use cli_app::codec::compressed_name;
use cli_app::models::FileTask;
use cli_app::schedule::chunk_bounds;
use cli_app::schedule::chunk_len;
use cli_app::schedule::compress_files_parallel;
use cli_app::schedule::decompress_files_parallel;

fn task(name: &str, data: &[u8]) -> FileTask {
    FileTask {
        filename: name.to_string(),
        data: data.to_vec(),
    }
}

#[test]
fn chunk_assignment_is_static_and_contiguous() {
    assert_eq!(chunk_len(10, 3), 4);
    assert_eq!(chunk_bounds(10, 3, 0), (0, 4));
    assert_eq!(chunk_bounds(10, 3, 1), (4, 8));
    assert_eq!(chunk_bounds(10, 3, 2), (8, 10));
}

#[test]
fn idle_workers_own_empty_ranges() {
    assert_eq!(chunk_len(1, 4), 1);
    assert_eq!(chunk_bounds(1, 4, 0), (0, 1));
    assert_eq!(chunk_bounds(1, 4, 1), (1, 1));
    assert_eq!(chunk_bounds(1, 4, 2), (1, 1));
    assert_eq!(chunk_bounds(1, 4, 3), (1, 1));
}

#[test]
fn compression_batch_collects_one_outcome_per_task() {
    let tasks = vec![
        task("a.txt", b"aaaaaaaaaaaaaaaaaaaaaaa"),
        task("b.txt", b"bbbbbbbb"),
        task("c.txt", b""),
    ];
    let results = compress_files_parallel(&tasks, 2, 6);
    assert_eq!(results.len(), 3);
    for (i, (outcome, stream)) in results.iter().enumerate() {
        assert_eq!(outcome.filename, tasks[i].filename);
        assert_eq!(outcome.original_size, tasks[i].data.len() as u64);
        assert_eq!(outcome.compressed_size, stream.len() as u64);
    }
}

#[test]
fn outcome_contents_are_independent_of_worker_count() {
    let tasks = vec![
        task("a.txt", b"the quick brown fox jumps over the lazy dog"),
        task("b.txt", b"zzzzzzzzzzzzzzzzzzzzzzzzzzzzzzzzzzzzzzzz"),
        task("c.txt", b"mixed 1234567890 content"),
        task("d.txt", b""),
        task("e.txt", b"last one"),
    ];
    let narrow = compress_files_parallel(&tasks, 1, 6);
    let wide = compress_files_parallel(&tasks, 8, 6);
    assert_eq!(narrow.len(), wide.len());
    for ((no, ns), (wo, ws)) in narrow.iter().zip(wide.iter()) {
        assert_eq!(no.filename, wo.filename);
        assert_eq!(no.original_size, wo.original_size);
        assert_eq!(no.compressed_size, wo.compressed_size);
        assert_eq!(no.compression_ratio_centi, wo.compression_ratio_centi);
        assert_eq!(ns, ws);
    }
}

#[test]
fn decompression_batch_records_every_task() {
    let good = task("a.txt", b"round trip me please, round and round");
    let compressed = compress_files_parallel(&vec![good.clone()], 1, 6);
    let stream = compressed[0].1.clone();

    let tasks = vec![
        task("a.txt.gz", &stream),
        task("broken.gz", b"definitely not gzip"),
        task("also.gz", &stream),
    ];
    let results = decompress_files_parallel(&tasks);
    assert_eq!(results.len(), 3);

    let (first, first_payload) = &results[0];
    assert!(first.success);
    assert_eq!(first.filename, "a.txt.gz");
    assert_eq!(first.compressed_size, stream.len() as u64);
    assert_eq!(first_payload.as_ref().unwrap(), &good.data);

    let (second, second_payload) = &results[1];
    assert!(!second.success);
    assert_eq!(second.compressed_size, 0);
    assert_eq!(second.decompressed_size, 0);
    assert!(second_payload.is_none());

    let (third, _) = &results[2];
    assert!(third.success);
}

#[test]
fn batch_round_trip_restores_every_file() {
    let originals = vec![
        task("a.txt", b"first file"),
        task("b.txt", b"second file, a little longer than the first"),
        task("c.txt", b""),
    ];
    let compressed = compress_files_parallel(&originals, 3, 6);
    assert_eq!(compressed.len(), originals.len());

    let decompress_tasks: Vec<FileTask> = compressed
        .iter()
        .map(|(outcome, stream)| FileTask {
            filename: compressed_name(&outcome.filename),
            data: stream.clone(),
        })
        .collect();
    let restored = decompress_files_parallel(&decompress_tasks);
    assert_eq!(restored.len(), originals.len());
    for (i, (outcome, payload)) in restored.iter().enumerate() {
        assert!(outcome.success);
        assert_eq!(payload.as_ref().unwrap(), &originals[i].data);
    }
}
