//! The chunk planner: decides whether a transfer is split into byte ranges
//! and computes the boundaries of each range.

use vstd::prelude::*;
use vstd::arithmetic::div_mod::lemma_fundamental_div_mod;
use vstd::arithmetic::mul::lemma_mul_inequality;

verus! {

/// The smallest share of a resource that is worth a worker of its own.
pub const MIN_CHUNK_SIZE: u64 = 1048576;

/// One contiguous byte range `[start, end]` (both ends inclusive) of a
/// resource, at position `index` of its plan.
#[derive(Clone, Copy, Debug, PartialEq, Eq, Structural)]
pub struct Chunk {
    pub index: usize,
    pub start: u64,
    pub end: u64,
}

impl Chunk {
    /// Number of bytes in the chunk.
    pub open spec fn spec_len(&self) -> int {
        self.end - self.start + 1
    }

    /// Whether byte offset `b` lies inside the chunk.
    pub open spec fn holds(&self, b: int) -> bool {
        self.start <= b <= self.end
    }
}

/// How one attempt at a resource is to be fetched.
#[derive(Clone, Debug)]
pub struct ChunkPlan {
    /// Size of the resource in bytes (0 when the server did not say).
    pub total_size: u64,
    /// Whether the server accepts byte-range requests.
    pub supports_ranges: bool,
    /// Whether the transfer is split into range requests fetched side by side.
    pub parallel: bool,
    /// The chunks, in index order.
    pub chunks: Vec<Chunk>,
}

/// The transfer is split only when the server accepts ranges, the resource
/// is larger than the threshold and more than one worker was asked for.
pub open spec fn is_split(total: u64, ranges: bool, workers: usize, min_parallel: u64) -> bool {
    ranges && total > min_parallel && workers > 1
}

/// `min(workers, max(1, total / MIN_CHUNK_SIZE))`.
pub open spec fn effective_workers(total: u64, workers: usize) -> int {
    let by_size: int = if total / MIN_CHUNK_SIZE >= 1 { (total / MIN_CHUNK_SIZE) as int } else { 1 };
    if (workers as int) < by_size { workers as int } else { by_size }
}

/// `ceil(n / d)`.
pub open spec fn ceil_div(n: int, d: int) -> int {
    n / d + if n % d == 0 { 0int } else { 1int }
}

/// Length of every chunk of a split plan but possibly the last.
pub open spec fn chunk_span(total: u64, workers: usize) -> int {
    ceil_div(total as int, effective_workers(total, workers))
}

/// Chunk `i` of `[0, total)` cut into consecutive pieces of `span` bytes.
pub open spec fn is_slice(c: Chunk, i: int, total: int, span: int) -> bool {
    &&& c.index == i
    &&& c.start == i * span
    &&& c.end == if (i + 1) * span < total { (i + 1) * span - 1 } else { total - 1 }
}

/// What `plan_chunks` returns for its arguments.
pub open spec fn is_plan(p: ChunkPlan, total: u64, ranges: bool, workers: usize, min_parallel: u64) -> bool {
    &&& p.total_size == total
    &&& p.supports_ranges == ranges
    &&& p.parallel == is_split(total, ranges, workers, min_parallel)
    &&& if p.parallel {
        let span = chunk_span(total, workers);
        &&& p.chunks@.len() == ceil_div(total as int, span)
        &&& forall|i: int| 0 <= i < p.chunks@.len() ==> #[trigger] is_slice(p.chunks@[i], i, total as int, span)
    } else {
        p.chunks@ == seq![Chunk { index: 0, start: 0, end: if total > 0 { (total - 1) as u64 } else { 0 } }]
    }
}

/// Chunks that tile `[0, total)` in order, each picking up where the last
/// one ended.
pub open spec fn tiles(cs: Seq<Chunk>, total: int) -> bool {
    &&& cs.len() > 0
    &&& cs[0].start == 0
    &&& cs.last().end == total - 1
    &&& forall|i: int| 0 <= i < cs.len() ==> (#[trigger] cs[i]).start <= cs[i].end && cs[i].index == i
    &&& forall|i: int| 0 <= i < cs.len() - 1 ==> (#[trigger] cs[i]).end + 1 == cs[i + 1].start
}

/// Some chunk holds byte `b`.
pub open spec fn covered(cs: Seq<Chunk>, b: int) -> bool {
    exists|i: int| 0 <= i < cs.len() && (#[trigger] cs[i]).holds(b)
}

/// Every byte of `[0, total)` lies in exactly one chunk, and no chunk
/// reaches outside it.
pub open spec fn covers_once(cs: Seq<Chunk>, total: int) -> bool {
    &&& forall|i: int| 0 <= i < cs.len() ==> 0 <= (#[trigger] cs[i]).start <= cs[i].end < total
    &&& forall|b: int| 0 <= b < total ==> #[trigger] covered(cs, b)
    &&& forall|i: int, j: int, b: int|
        0 <= i < cs.len() && 0 <= j < cs.len() && #[trigger] cs[i].holds(b) && #[trigger] cs[j].holds(b) ==> i == j
}

proof fn lemma_ceil_div(n: int, d: int)
    requires
        n >= 1,
        d >= 1,
    ensures
        1 <= ceil_div(n, d) <= n,
        ceil_div(n, d) * d >= n,
        (ceil_div(n, d) - 1) * d < n,
{
    lemma_fundamental_div_mod(n, d);
    let q = n / d;
    let r = n % d;
    assert(0 <= r < d);
    assert(q >= 0) by (nonlinear_arith)
        requires n == d * q + r, n >= 1, d >= 1, 0 <= r < d;
    assert(q <= n) by (nonlinear_arith)
        requires n == d * q + r, d >= 1, q >= 0, r >= 0;
    if r == 0 {
        assert(q >= 1) by (nonlinear_arith)
            requires n == d * q, n >= 1, d >= 1;
        assert(q * d >= n && (q - 1) * d < n) by (nonlinear_arith)
            requires n == d * q, d >= 1;
    } else {
        assert(q + 1 <= n) by (nonlinear_arith)
            requires n == d * q + r, d >= 1, q >= 0, 1 <= r < d;
        assert((q + 1) * d >= n && q * d < n) by (nonlinear_arith)
            requires n == d * q + r, 1 <= r < d;
    }
}

/// Below `ceil(n / d)` pieces of `d` bytes fall short of `n`.
proof fn lemma_below_count(n: int, d: int, i: int)
    requires
        n >= 1,
        d >= 1,
        0 <= i < ceil_div(n, d),
    ensures
        i * d < n,
        i * d + d <= n || i == ceil_div(n, d) - 1,
{
    lemma_ceil_div(n, d);
    let c = ceil_div(n, d);
    lemma_mul_inequality(i, c - 1, d);
    if i < c - 1 {
        lemma_mul_inequality(i + 1, c - 1, d);
        assert((i + 1) * d == i * d + d) by (nonlinear_arith);
    }
}

/// A split plan has no more chunks than effective workers.
proof fn lemma_split_count(total: u64, workers: usize)
    requires
        total >= 1,
        workers >= 1,
    ensures
        1 <= effective_workers(total, workers) <= workers,
        1 <= chunk_span(total, workers) <= total,
        1 <= ceil_div(total as int, chunk_span(total, workers)) <= effective_workers(total, workers),
{
    let e = effective_workers(total, workers);
    let span = chunk_span(total, workers);
    lemma_ceil_div(total as int, e);
    assert(span * e >= total);
    lemma_ceil_div(total as int, span);
    let c = ceil_div(total as int, span);
    if e < c {
        lemma_mul_inequality(e, c - 1, span);
        assert(e * span == span * e) by (nonlinear_arith);
    }
}

/// Decides whether and how a resource of `total_size` bytes is split.
///
/// Without range support, at or below `min_parallel_size` bytes, or with at
/// most one worker, the plan is one chunk over the whole resource, fetched
/// sequentially. Otherwise `effective_workers` bounds the fan-out so that no
/// chunk is needlessly small, and `[0, total_size)` is cut into consecutive
/// ranges of `ceil(total_size / effective_workers)` bytes, the last one
/// ending at `total_size - 1`.
pub fn plan_chunks(total_size: u64, supports_ranges: bool, requested_workers: usize, min_parallel_size: u64) -> (r: ChunkPlan)
    ensures
        is_plan(r, total_size, supports_ranges, requested_workers, min_parallel_size),
{
    if !supports_ranges || total_size <= min_parallel_size || requested_workers <= 1 {
        let end: u64 = if total_size > 0 { total_size - 1 } else { 0 };
        let chunks = vec![Chunk { index: 0, start: 0, end }];
        assert(chunks@ =~= seq![Chunk { index: 0, start: 0, end }]);
        return ChunkPlan { total_size, supports_ranges, parallel: false, chunks };
    }
    let by_size: u64 = if total_size / MIN_CHUNK_SIZE >= 1 { total_size / MIN_CHUNK_SIZE } else { 1 };
    let workers: u64 = requested_workers as u64;
    let effective: u64 = if workers < by_size { workers } else { by_size };
    proof {
        lemma_split_count(total_size, requested_workers);
        assert(effective == effective_workers(total_size, requested_workers));
        lemma_ceil_div(total_size as int, effective as int);
    }
    let span: u64 = total_size / effective + if total_size % effective == 0 { 0 } else { 1 };
    let count: u64 = total_size / span + if total_size % span == 0 { 0 } else { 1 };
    proof {
        assert(span == chunk_span(total_size, requested_workers));
        assert(count == ceil_div(total_size as int, span as int));
    }
    let count: usize = count as usize;
    let mut chunks: Vec<Chunk> = Vec::new();
    let mut i: usize = 0;
    while i < count
        invariant
            total_size >= 1,
            span >= 1,
            span == chunk_span(total_size, requested_workers),
            count == ceil_div(total_size as int, span as int),
            i <= count,
            chunks@.len() == i,
            forall|k: int| 0 <= k < i ==> #[trigger] is_slice(chunks@[k], k, total_size as int, span as int),
        decreases count - i,
    {
        proof {
            lemma_below_count(total_size as int, span as int, i as int);
        }
        let start: u64 = i as u64 * span;
        let end: u64 = if total_size - start > span { start + span - 1 } else { total_size - 1 };
        proof {
            assert((i + 1) * span == i * span + span) by (nonlinear_arith);
        }
        chunks.push(Chunk { index: i, start, end });
        i = i + 1;
    }
    ChunkPlan { total_size, supports_ranges, parallel: true, chunks }
}

proof fn lemma_tiles_ordered(cs: Seq<Chunk>, total: int, i: int, j: int)
    requires
        tiles(cs, total),
        0 <= i < j < cs.len(),
    ensures
        cs[i].end < cs[j].start,
    decreases j - i,
{
    assert(cs[j - 1].end + 1 == cs[j].start);
    if i < j - 1 {
        lemma_tiles_ordered(cs, total, i, j - 1);
        assert(cs[j - 1].start <= cs[j - 1].end);
    }
}

proof fn lemma_tiles_find(cs: Seq<Chunk>, total: int, b: int, k: int)
    requires
        tiles(cs, total),
        0 <= k < cs.len(),
        0 <= b <= cs[k].end,
    ensures
        covered(cs, b),
    decreases k,
{
    if b >= cs[k].start {
        assert(cs[k].holds(b));
    } else {
        assert(cs[k - 1].end + 1 == cs[k].start);
        lemma_tiles_find(cs, total, b, k - 1);
    }
}

/// Chunks that tile `[0, total)` cover every byte of it exactly once.
pub proof fn lemma_tiles_cover_once(cs: Seq<Chunk>, total: int)
    requires
        tiles(cs, total),
    ensures
        covers_once(cs, total),
{
    let last = cs.len() - 1;
    assert forall|i: int| 0 <= i < cs.len() implies 0 <= (#[trigger] cs[i]).start <= cs[i].end < total by {
        if i < last {
            lemma_tiles_ordered(cs, total, i, last);
        }
    }
    assert forall|b: int| 0 <= b < total implies #[trigger] covered(cs, b) by {
        lemma_tiles_find(cs, total, b, last);
    }
    assert forall|i: int, j: int, b: int|
        0 <= i < cs.len() && 0 <= j < cs.len() && #[trigger] cs[i].holds(b) && #[trigger] cs[j].holds(b) implies i == j by {
        if i < j {
            lemma_tiles_ordered(cs, total, i, j);
        } else if j < i {
            lemma_tiles_ordered(cs, total, j, i);
        }
    }
}

/// For every size `total > 0` and worker count `workers > 0`, the planned
/// chunks tile `[0, total)` in index order, so every byte lies in exactly
/// one chunk, and there are no more chunks than workers.
pub proof fn lemma_plan_covers(p: ChunkPlan, total: u64, ranges: bool, workers: usize, min_parallel: u64)
    requires
        is_plan(p, total, ranges, workers, min_parallel),
        total >= 1,
        workers >= 1,
    ensures
        tiles(p.chunks@, total as int),
        covers_once(p.chunks@, total as int),
        p.chunks@.len() <= workers,
{
    let cs = p.chunks@;
    if p.parallel {
        let span = chunk_span(total, workers);
        let n = total as int;
        lemma_split_count(total, workers);
        let c = cs.len();
        assert(is_slice(cs[0], 0, n, span));
        assert(0 * span == 0) by (nonlinear_arith);
        assert(is_slice(cs[c - 1], c - 1, n, span));
        lemma_ceil_div(n, span);
        assert((c - 1 + 1) * span >= n);
        assert forall|i: int| 0 <= i < cs.len() implies (#[trigger] cs[i]).start <= cs[i].end && cs[i].index == i by {
            assert(is_slice(cs[i], i, n, span));
            lemma_below_count(n, span, i);
            assert((i + 1) * span == i * span + span) by (nonlinear_arith);
        }
        assert forall|i: int| 0 <= i < cs.len() - 1 implies (#[trigger] cs[i]).end + 1 == cs[i + 1].start by {
            assert(is_slice(cs[i], i, n, span));
            assert(is_slice(cs[i + 1], i + 1, n, span));
            lemma_below_count(n, span, i + 1);
        }
    }
    lemma_tiles_cover_once(cs, total as int);
}

} // verus!
