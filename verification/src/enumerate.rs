//! File enumerator: which directory entries become batch inputs.
//!
//! The application lists a directory (or probes a single path) and hands the
//! plain facts over — each entry's name and whether it is a regular file.
//! Every decision about what to keep is made and verified here: the
//! compression pass takes regular files that do not already bear the
//! compressed-file extension, the decompression pass takes exactly those
//! that do, and a missing input path is rejected as `NotFound` before any
//! work begins.

use vstd::prelude::*;

use crate::codec::spec_ends_gz;
use crate::models::AppError;
use crate::models::DirEntry;

verus! {

/// True of a file name whose extension marks it as already compressed: it
/// ends in `.gz` and the suffix is a real extension, not the whole name
/// (`.gz` alone is a hidden file without an extension).
pub open spec fn spec_has_gz_ext(s: Seq<char>) -> bool {
    s.len() > 3 && spec_ends_gz(s)
}

/// Whether `name` bears the compressed-file extension.
pub fn is_compressed_name(name: &str) -> (r: bool)
    ensures
        r == spec_has_gz_ext(name@),
{
    name.unicode_len() > 3 && crate::codec::str_ends_with_gz(name)
}

/// An entry is a compression input when it is a regular file not already
/// compressed.
pub open spec fn spec_keep_compress(e: DirEntry) -> bool {
    e.is_file && !spec_has_gz_ext(e.name@)
}

/// An entry is a decompression input when it is a regular file bearing the
/// compressed-file extension.
pub open spec fn spec_keep_decompress(e: DirEntry) -> bool {
    e.is_file && spec_has_gz_ext(e.name@)
}

/// The names of the entries of `s` that the compression pass keeps, in
/// directory order.
pub open spec fn spec_compress_inputs(s: Seq<DirEntry>) -> Seq<Seq<char>>
    decreases s.len(),
{
    if s.len() == 0 {
        Seq::empty()
    } else if spec_keep_compress(s.last()) {
        spec_compress_inputs(s.drop_last()).push(s.last().name@)
    } else {
        spec_compress_inputs(s.drop_last())
    }
}

/// The names of the entries of `s` that the decompression pass keeps, in
/// directory order.
pub open spec fn spec_decompress_inputs(s: Seq<DirEntry>) -> Seq<Seq<char>>
    decreases s.len(),
{
    if s.len() == 0 {
        Seq::empty()
    } else if spec_keep_decompress(s.last()) {
        spec_decompress_inputs(s.drop_last()).push(s.last().name@)
    } else {
        spec_decompress_inputs(s.drop_last())
    }
}

/// The character sequences behind a list of names.
pub open spec fn names_view(v: Seq<String>) -> Seq<Seq<char>> {
    v.map_values(|s: String| s@)
}

/// Selects the compression inputs among the listed entries.
pub fn select_compress_inputs(entries: &Vec<DirEntry>) -> (r: Vec<String>)
    ensures
        names_view(r@) == spec_compress_inputs(entries@),
{
    let mut out: Vec<String> = Vec::new();
    let mut i: usize = 0;
    while i < entries.len()
        invariant
            i <= entries.len(),
            names_view(out@) == spec_compress_inputs(entries@.subrange(0, i as int)),
        decreases entries.len() - i,
    {
        let e = &entries[i];
        let keep = e.is_file && !is_compressed_name(e.name.as_str());
        proof {
            let prefix = entries@.subrange(0, i + 1);
            assert(prefix.drop_last() =~= entries@.subrange(0, i as int));
            assert(prefix.last() == entries@[i as int]);
        }
        if keep {
            out.push(e.name.clone());
            proof {
                assert(names_view(out@) =~= names_view(out@.drop_last()).push(e.name@));
            }
        }
        i = i + 1;
    }
    proof {
        assert(entries@.subrange(0, entries@.len() as int) =~= entries@);
    }
    out
}

/// Selects the decompression inputs among the listed entries.
pub fn select_decompress_inputs(entries: &Vec<DirEntry>) -> (r: Vec<String>)
    ensures
        names_view(r@) == spec_decompress_inputs(entries@),
{
    let mut out: Vec<String> = Vec::new();
    let mut i: usize = 0;
    while i < entries.len()
        invariant
            i <= entries.len(),
            names_view(out@) == spec_decompress_inputs(entries@.subrange(0, i as int)),
        decreases entries.len() - i,
    {
        let e = &entries[i];
        let keep = e.is_file && is_compressed_name(e.name.as_str());
        proof {
            let prefix = entries@.subrange(0, i + 1);
            assert(prefix.drop_last() =~= entries@.subrange(0, i as int));
            assert(prefix.last() == entries@[i as int]);
        }
        if keep {
            out.push(e.name.clone());
            proof {
                assert(names_view(out@) =~= names_view(out@.drop_last()).push(e.name@));
            }
        }
        i = i + 1;
    }
    proof {
        assert(entries@.subrange(0, entries@.len() as int) =~= entries@);
    }
    out
}

/// The compression-input list for a probed path. The application reports
/// whether the path exists, whether it is itself a regular file, and — when
/// it is a directory — its entries; this function decides what the batch
/// will work on. A missing path is `NotFound` and selects nothing; a single
/// file is taken as the one input whatever its extension; a directory
/// contributes its not-yet-compressed regular files.
pub fn collect_files(
    path: &str,
    path_exists: bool,
    path_is_file: bool,
    entries: &Vec<DirEntry>,
) -> (r: Result<Vec<String>, AppError>)
    ensures
        !path_exists ==> r == Err::<Vec<String>, AppError>(AppError::NotFound),
        path_exists && path_is_file ==> (r matches Ok(v) && names_view(v@) == seq![path@]),
        path_exists && !path_is_file ==> (r matches Ok(v) && names_view(v@)
            == spec_compress_inputs(entries@)),
{
    if !path_exists {
        Err(AppError::NotFound)
    } else if path_is_file {
        let mut out: Vec<String> = Vec::new();
        out.push(path.to_owned());
        proof {
            assert(names_view(out@) =~= seq![path@]);
        }
        Ok(out)
    } else {
        Ok(select_compress_inputs(entries))
    }
}

/// The decompression-input list for a probed directory: `NotFound` when the
/// path does not exist, otherwise exactly the entries bearing the
/// compressed-file extension.
pub fn collect_compressed_files(path_exists: bool, entries: &Vec<DirEntry>) -> (r: Result<
    Vec<String>,
    AppError,
>)
    ensures
        !path_exists ==> r == Err::<Vec<String>, AppError>(AppError::NotFound),
        path_exists ==> (r matches Ok(v) && names_view(v@) == spec_decompress_inputs(entries@)),
{
    if !path_exists {
        Err(AppError::NotFound)
    } else {
        Ok(select_decompress_inputs(entries))
    }
}

} // verus!
