use cli_app::enumerate::collect_compressed_files;
use cli_app::enumerate::collect_files;
use cli_app::enumerate::is_compressed_name;
use cli_app::enumerate::select_compress_inputs;
use cli_app::enumerate::select_decompress_inputs;
use cli_app::models::AppError;
use cli_app::models::DirEntry;

fn entry(name: &str, is_file: bool) -> DirEntry {
    DirEntry {
        name: name.to_string(),
        is_file,
    }
}

#[test]
fn compression_skips_already_compressed() {
    let entries = vec![entry("a.txt", true), entry("b.gz", true)];
    let files = collect_files("indir", true, false, &entries).unwrap();
    assert_eq!(files, vec!["a.txt".to_string()]);
}

#[test]
fn missing_path_is_not_found() {
    let entries: Vec<DirEntry> = Vec::new();
    assert_eq!(
        collect_files("missing", false, false, &entries),
        Err(AppError::NotFound)
    );
    assert_eq!(
        collect_compressed_files(false, &entries),
        Err(AppError::NotFound)
    );
}

#[test]
fn single_file_is_taken_whatever_its_extension() {
    let entries: Vec<DirEntry> = Vec::new();
    let files = collect_files("archive.gz", true, true, &entries).unwrap();
    assert_eq!(files, vec!["archive.gz".to_string()]);
}

#[test]
fn decompression_keeps_only_compressed_files() {
    let entries = vec![
        entry("a.txt", true),
        entry("b.gz", true),
        entry("c.tar.gz", true),
        entry("d.gz", false),
    ];
    let files = collect_compressed_files(true, &entries).unwrap();
    assert_eq!(files, vec!["b.gz".to_string(), "c.tar.gz".to_string()]);
}

#[test]
fn subdirectories_are_not_traversed() {
    let entries = vec![entry("docs", false), entry("notes.txt", true)];
    let files = select_compress_inputs(&entries);
    assert_eq!(files, vec!["notes.txt".to_string()]);
}

#[test]
fn hidden_gz_name_has_no_extension() {
    assert!(!is_compressed_name(".gz"));
    assert!(is_compressed_name("x.gz"));
    assert!(!is_compressed_name("xgz"));
    assert!(!is_compressed_name("x.gzip"));
    let entries = vec![entry(".gz", true)];
    assert_eq!(select_compress_inputs(&entries), vec![".gz".to_string()]);
    assert!(select_decompress_inputs(&entries).is_empty());
}

#[test]
fn directory_order_is_preserved() {
    let entries = vec![
        entry("z.txt", true),
        entry("m.gz", true),
        entry("a.txt", true),
    ];
    let files = select_compress_inputs(&entries);
    assert_eq!(files, vec!["z.txt".to_string(), "a.txt".to_string()]);
}
