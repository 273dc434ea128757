//! Batch scheduler: static contiguous partitioning of a task list across a
//! fixed worker pool, and the batch semantics each worker executes on its
//! chunk.
//!
//! Worker `i` of `w` owns the half-open index range
//! `[min(i*c, n), min((i+1)*c, n))` with `c = ceil(n / w)`: the chunks are
//! disjoint, contiguous and cover every task exactly once, so the workers
//! never share a task and an idle worker simply owns an empty range. The
//! batch functions below execute the chunks in worker order; because each
//! chunk boundary meets the next, their outcome is pinned task by task, and
//! the postconditions do not depend on the worker count — what one worker
//! computes, any pool width computes.

use vstd::prelude::*;

use crate::codec::compress_file;
use crate::codec::compress_outcome_ok;
use crate::codec::decompress_file;
use crate::codec::decompress_outcome_ok;
use crate::codec::gzip_of;
use crate::codec::inflate_of;
use crate::models::CompressionResult;
use crate::models::DecompressionResult;
use crate::models::FileTask;

verus! {

/// The chunk length `ceil(n / w)` of a batch of `n` tasks over `w`
/// workers.
pub open spec fn spec_chunk_len(n: int, w: int) -> int {
    (n + w - 1) / w
}

/// Where worker `i`'s chunk begins: `i * c`, clamped to the task count.
pub open spec fn spec_chunk_start(n: int, w: int, i: int) -> int {
    if i * spec_chunk_len(n, w) <= n {
        i * spec_chunk_len(n, w)
    } else {
        n
    }
}

/// Where worker `i`'s chunk ends: exactly where worker `i + 1`'s begins,
/// so consecutive chunks always meet.
pub open spec fn spec_chunk_end(n: int, w: int, i: int) -> int {
    spec_chunk_start(n, w, i + 1)
}

/// The chunk length covers all tasks (`n <= c * w`) without a full spare
/// chunk of slack (`c * w < n + w`), is positive as soon as there is a
/// task, and is zero when there is none.
pub proof fn lemma_chunk_len_bounds(n: int, w: int)
    requires
        w >= 1,
        n >= 0,
    ensures
        n <= spec_chunk_len(n, w) * w,
        spec_chunk_len(n, w) * w < n + w,
        spec_chunk_len(n, w) >= 0,
        n > 0 ==> spec_chunk_len(n, w) >= 1,
        n == 0 ==> spec_chunk_len(n, w) == 0,
{
    let c = spec_chunk_len(n, w);
    vstd::arithmetic::div_mod::lemma_fundamental_div_mod(n + w - 1, w);
    vstd::arithmetic::div_mod::lemma_mod_division_less_than_divisor(n + w - 1, w);
    assert(w * c == c * w) by {
        vstd::arithmetic::mul::lemma_mul_is_commutative(w, c);
    }
    if n == 0 {
        vstd::arithmetic::div_mod::lemma_basic_div(w - 1, w);
    }
    if n > 0 && c <= 0 {
        vstd::arithmetic::mul::lemma_mul_inequality(c, 0, w);
        vstd::arithmetic::mul::lemma_mul_by_zero_is_zero(w);
        assert(false);
    }
}

/// Every chunk lies inside the task list: worker 0 starts at the first
/// task, worker `w` (one past the last) starts at the end, and the starts
/// are monotone in the worker index.
pub proof fn lemma_chunk_start_bounds(n: int, w: int, i: int)
    requires
        w >= 1,
        n >= 0,
        0 <= i <= w,
    ensures
        0 <= spec_chunk_start(n, w, i) <= n,
        i == 0 ==> spec_chunk_start(n, w, i) == 0,
        i == w ==> spec_chunk_start(n, w, i) == n,
        i < w ==> spec_chunk_start(n, w, i) <= spec_chunk_end(n, w, i),
{
    let c = spec_chunk_len(n, w);
    lemma_chunk_len_bounds(n, w);
    vstd::arithmetic::mul::lemma_mul_nonnegative(i, c);
    if i == w {
        assert(n <= c * w);
        assert(w * c == c * w) by {
            vstd::arithmetic::mul::lemma_mul_is_commutative(w, c);
        }
    }
    if i < w {
        vstd::arithmetic::mul::lemma_mul_inequality(i, i + 1, c);
    }
}

/// Chunks of distinct workers are disjoint: an earlier worker's chunk ends
/// no later than a later worker's begins. Together with
/// `lemma_task_owner` this is the scheduler's no-sharing invariant — no two
/// workers ever operate on the same task.
pub proof fn lemma_chunks_disjoint(n: int, w: int, i1: int, i2: int)
    requires
        w >= 1,
        n >= 0,
        0 <= i1 < i2 < w,
    ensures
        spec_chunk_end(n, w, i1) <= spec_chunk_start(n, w, i2),
{
    let c = spec_chunk_len(n, w);
    lemma_chunk_len_bounds(n, w);
    vstd::arithmetic::mul::lemma_mul_inequality(i1 + 1, i2, c);
}

/// Every task belongs to some worker's chunk: task `k` lies in the chunk
/// of worker `k / c`, which is a real worker index.
pub proof fn lemma_task_owner(n: int, w: int, k: int)
    requires
        w >= 1,
        0 <= k < n,
    ensures
        0 <= k / spec_chunk_len(n, w) < w,
        spec_chunk_start(n, w, k / spec_chunk_len(n, w)) <= k,
        k < spec_chunk_end(n, w, k / spec_chunk_len(n, w)),
{
    let c = spec_chunk_len(n, w);
    lemma_chunk_len_bounds(n, w);
    let i = k / c;
    vstd::arithmetic::div_mod::lemma_div_pos_is_pos(k, c);
    vstd::arithmetic::div_mod::lemma_fundamental_div_mod(k, c);
    vstd::arithmetic::div_mod::lemma_mod_division_less_than_divisor(k, c);
    assert(c * i == i * c) by {
        vstd::arithmetic::mul::lemma_mul_is_commutative(c, i);
    }
    assert(c * (i + 1) == (i + 1) * c) by {
        vstd::arithmetic::mul::lemma_mul_is_commutative(c, i + 1);
    }
    assert(c * (i + 1) == c * i + c) by {
        vstd::arithmetic::mul::lemma_mul_is_distributive_add(c, i, 1);
    }
    if i >= w {
        vstd::arithmetic::mul::lemma_mul_inequality(w, i, c);
        assert(w * c == c * w) by {
            vstd::arithmetic::mul::lemma_mul_is_commutative(w, c);
        }
        assert(false);
    }
    vstd::arithmetic::mul::lemma_mul_inequality(i, i + 1, c);
}

/// The chunks a batch of tasks `s` is split into for `w` workers,
/// concatenated in worker order up to worker `i`.
pub open spec fn concat_chunks<A>(s: Seq<A>, w: int, i: int) -> Seq<A>
    decreases i,
{
    if i <= 0 {
        Seq::empty()
    } else {
        concat_chunks(s, w, i - 1) + s.subrange(
            spec_chunk_start(s.len() as int, w, i - 1),
            spec_chunk_end(s.len() as int, w, i - 1),
        )
    }
}

proof fn lemma_concat_chunks_prefix<A>(s: Seq<A>, w: int, i: int)
    requires
        w >= 1,
        0 <= i <= w,
    ensures
        concat_chunks(s, w, i) == s.subrange(0, spec_chunk_start(s.len() as int, w, i)),
    decreases i,
{
    let n = s.len() as int;
    lemma_chunk_start_bounds(n, w, i);
    if i == 0 {
        assert(concat_chunks(s, w, 0) =~= s.subrange(0, 0));
    } else {
        lemma_concat_chunks_prefix(s, w, i - 1);
        lemma_chunk_start_bounds(n, w, i - 1);
        assert(s.subrange(0, spec_chunk_start(n, w, i - 1)) + s.subrange(
            spec_chunk_start(n, w, i - 1),
            spec_chunk_start(n, w, i),
        ) =~= s.subrange(0, spec_chunk_start(n, w, i)));
    }
}

/// Static contiguous partitioning loses and reorders nothing: the chunks
/// assigned to workers `0 .. w`, concatenated in worker order, are exactly
/// the task list, whatever the worker count. Pools of different widths
/// therefore process the same tasks in the same overall order, which is
/// why the batch contracts below do not mention the width.
pub proof fn lemma_chunks_concat_all<A>(s: Seq<A>, w: int)
    requires
        w >= 1,
    ensures
        concat_chunks(s, w, w) == s,
{
    let n = s.len() as int;
    lemma_concat_chunks_prefix(s, w, w);
    lemma_chunk_start_bounds(n, w, w);
    assert(s.subrange(0, n) =~= s);
}

/// Computes the chunk length `ceil(n / w)`, as the scheduler assigns it.
pub fn chunk_len(n: usize, w: usize) -> (c: usize)
    requires
        w >= 1,
        n + w <= usize::MAX,
    ensures
        c == spec_chunk_len(n as int, w as int),
{
    (n + w - 1) / w
}

/// Computes the half-open task range `[start, end)` that worker `i` of `w`
/// owns in a batch of `n` tasks.
pub fn chunk_bounds(n: usize, w: usize, i: usize) -> (se: (usize, usize))
    requires
        w >= 1,
        i < w,
        n + w <= usize::MAX,
    ensures
        se.0 == spec_chunk_start(n as int, w as int, i as int),
        se.1 == spec_chunk_end(n as int, w as int, i as int),
        se.0 <= se.1 <= n,
{
    let c = chunk_len(n, w);
    proof {
        lemma_chunk_start_bounds(n as int, w as int, i as int);
        lemma_chunk_start_bounds(n as int, w as int, i + 1);
        assert((i as u128) * (c as u128) <= 0xffff_ffff_ffff_ffff * 0xffff_ffff_ffff_ffff) by {
            vstd::arithmetic::mul::lemma_mul_upper_bound(
                i as int,
                0xffff_ffff_ffff_ffff,
                c as int,
                0xffff_ffff_ffff_ffff,
            );
        }
        assert((i as u128 + 1) * (c as u128) <= 0x1_0000_0000_0000_0000
            * 0xffff_ffff_ffff_ffff) by {
            vstd::arithmetic::mul::lemma_mul_upper_bound(
                i as int + 1,
                0x1_0000_0000_0000_0000,
                c as int,
                0xffff_ffff_ffff_ffff,
            );
        }
    }
    let s128: u128 = (i as u128) * (c as u128);
    let start: usize = if s128 >= n as u128 {
        n
    } else {
        s128 as usize
    };
    let e128: u128 = (i as u128 + 1) * (c as u128);
    let end: usize = if e128 >= n as u128 {
        n
    } else {
        e128 as usize
    };
    (start, end)
}

/// What the compression batch owes for task `t`: the recorded outcome and
/// the gzip stream the worker hands back for writing.
pub open spec fn compress_pair_ok(t: FileTask, p: (CompressionResult, Vec<u8>), level: u32) -> bool {
    &&& compress_outcome_ok(t.filename@, t.data@, level, p.0)
    &&& p.1@ == gzip_of(t.data@, level)
}

/// Everything a compression batch over `tasks` guarantees of its
/// collected outcomes `r`, whatever the worker count: exactly one outcome
/// per task, in task order, each exact. In-memory compression cannot fail,
/// so no task is ever dropped here; the application drops a file only when
/// reading it fails, before it becomes a task.
pub open spec fn compress_batch_post(
    tasks: Seq<FileTask>,
    level: u32,
    r: Seq<(CompressionResult, Vec<u8>)>,
) -> bool {
    &&& r.len() == tasks.len()
    &&& forall|j: int| 0 <= j < tasks.len() ==> compress_pair_ok(tasks[j], #[trigger] r[j], level)
}

/// Compresses every task, chunk by chunk in worker order, and collects
/// exactly one outcome per task (decompression likewise records every
/// outcome; only the application's file reads can drop a file, and only
/// from the compression pass). The postcondition holds for every worker
/// count: partition width changes which worker touches a task, never what
/// is collected for it.
pub fn compress_files_parallel(tasks: &Vec<FileTask>, num_threads: usize, level: u32) -> (r: Vec<
    (CompressionResult, Vec<u8>),
>)
    requires
        num_threads >= 1,
        level <= 9,
        tasks@.len() + num_threads <= usize::MAX,
    ensures
        compress_batch_post(tasks@, level, r@),
{
    let n = tasks.len();
    let w = num_threads;
    let mut out: Vec<(CompressionResult, Vec<u8>)> = Vec::new();
    proof {
        lemma_chunk_start_bounds(n as int, w as int, 0);
    }
    let mut i: usize = 0;
    while i < w
        invariant
            i <= w,
            w >= 1,
            level <= 9,
            n == tasks@.len(),
            n + w <= usize::MAX,
            out@.len() == spec_chunk_start(n as int, w as int, i as int),
            forall|k: int| 0 <= k < out@.len() ==> compress_pair_ok(
                tasks@[k],
                #[trigger] out@[k],
                level,
            ),
        decreases w - i,
    {
        let (s, e) = chunk_bounds(n, w, i);
        let mut j = s;
        while j < e
            invariant
                s <= j <= e,
                e <= n,
                level <= 9,
                n == tasks@.len(),
                out@.len() == j,
                forall|k: int| 0 <= k < j ==> compress_pair_ok(tasks@[k], #[trigger] out@[k], level),
            decreases e - j,
        {
            let t = &tasks[j];
            let p = compress_file(t.filename.as_str(), &t.data, level).unwrap();
            out.push(p);
            j = j + 1;
        }
        proof {
            lemma_chunk_start_bounds(n as int, w as int, i + 1);
        }
        i = i + 1;
    }
    proof {
        lemma_chunk_start_bounds(n as int, w as int, w as int);
    }
    out
}

/// What the decompression batch owes for task `t`: the always-recorded
/// outcome, the decoded payload exactly when decoding succeeded, and — for
/// a task holding a stream the encoder produced — success, with the
/// payload being the bytes the encoder was given.
pub open spec fn decompress_pair_ok(t: FileTask, p: (DecompressionResult, Option<Vec<u8>>)) -> bool {
    &&& decompress_outcome_ok(t.filename@, t.data@, p.0)
    &&& (p.1 matches Some(payload) ==> inflate_of(t.data@) == Some(payload@))
    &&& (p.0.success <==> p.1 is Some)
    &&& forall|orig: Seq<u8>, level: u32|
        level <= 9 && t.data@ == #[trigger] gzip_of(orig, level) ==> p.0.success
            && (p.1 matches Some(payload) && payload@ == orig)
}

/// Decompresses every task and records exactly one outcome per task, in
/// task order — a malformed stream yields a `success == false` record with
/// zeroed sizes, never a missing entry. Each outcome is a function of its
/// task alone, so the collected contents are independent of how the tasks
/// are partitioned over workers.
pub fn decompress_files_parallel(tasks: &Vec<FileTask>) -> (r: Vec<
    (DecompressionResult, Option<Vec<u8>>),
>)
    ensures
        r@.len() == tasks@.len(),
        forall|j: int| 0 <= j < tasks@.len() ==> decompress_pair_ok(tasks@[j], #[trigger] r@[j]),
{
    let n = tasks.len();
    let mut out: Vec<(DecompressionResult, Option<Vec<u8>>)> = Vec::new();
    let mut j: usize = 0;
    while j < n
        invariant
            j <= n,
            n == tasks@.len(),
            out@.len() == j,
            forall|k: int| 0 <= k < j ==> decompress_pair_ok(tasks@[k], #[trigger] out@[k]),
        decreases n - j,
    {
        let t = &tasks[j];
        let p = decompress_file(t.filename.as_str(), &t.data);
        out.push(p);
        j = j + 1;
    }
    out
}

} // verus!
