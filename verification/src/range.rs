//! Range planning: splitting a download of `total_size` bytes into
//! `thread_count` contiguous, non-overlapping byte ranges.

use vstd::prelude::*;
use vstd::arithmetic::div_mod::{lemma_basic_div, lemma_fundamental_div_mod, lemma_mod_bound, lemma_small_mod};
use vstd::arithmetic::mul::{lemma_mul_inequality, lemma_mul_is_distributive_add_other_way};

verus! {

/// One contiguous byte range of the remote resource, inclusive at both ends so
/// that it maps directly onto HTTP `Range: bytes=start-end` semantics.
#[derive(Clone, Copy, Debug, PartialEq, Eq, Structural)]
pub struct ChunkRange {
    pub index: u32,
    pub start: u64,
    pub end_inclusive: u64,
}

impl ChunkRange {
    /// Number of bytes the range covers.
    pub open spec fn spec_len(self) -> int {
        self.end_inclusive - self.start + 1
    }

    /// A range produced by the planner is never empty and its length fits in `u64`.
    pub open spec fn wf(self) -> bool {
        &&& self.start <= self.end_inclusive
        &&& self.spec_len() <= u64::MAX
    }

    pub fn len(&self) -> (n: u64)
        requires
            self.wf(),
        ensures
            n == self.spec_len(),
    {
        self.end_inclusive - self.start + 1
    }
}

/// Size of the `i`-th of `tc` chunks of a `total`-byte resource: the sizes are
/// near-equal, the first `total % tc` chunks carrying one extra byte.
pub open spec fn chunk_size(total: int, tc: int, i: int) -> int {
    total / tc + if i < total % tc { 1int } else { 0int }
}

/// First byte of the `i`-th chunk: the sum of the sizes of the chunks before it,
/// in closed form.
pub open spec fn chunk_start(total: int, tc: int, i: int) -> int {
    i * (total / tc) + vstd::math::min(i, total % tc)
}

/// How many of the `tc` chunks are non-empty; only those become ranges.
pub open spec fn num_chunks(total: int, tc: int) -> int {
    vstd::math::min(total, tc)
}

/// Shape of a planner result: one range per non-empty chunk, indexed from 0,
/// with the closed-form boundaries.
pub open spec fn is_planned_ranges(total: int, tc: int, ranges: Seq<ChunkRange>) -> bool {
    &&& ranges.len() == num_chunks(total, tc)
    &&& forall|j: int|
        0 <= j < ranges.len() ==> {
            &&& (#[trigger] ranges[j]).index == j
            &&& ranges[j].start == chunk_start(total, tc, j)
            &&& ranges[j].end_inclusive == chunk_start(total, tc, j + 1) - 1
        }
}

/// Consecutive chunk starts differ by exactly the chunk's size.
pub(crate) proof fn lemma_chunk_start_step(total: int, tc: int, i: int)
    requires
        1 <= tc,
        0 <= total,
        0 <= i,
    ensures
        chunk_start(total, tc, i + 1) == chunk_start(total, tc, i) + chunk_size(total, tc, i),
{
    let base = total / tc;
    lemma_mul_is_distributive_add_other_way(base, i, 1);
    assert((i + 1) * base == i * base + base);
}

/// Chunk starts are monotone in the chunk number.
pub(crate) proof fn lemma_chunk_start_monotone(total: int, tc: int, a: int, b: int)
    requires
        1 <= tc,
        0 <= total,
        0 <= a <= b,
    ensures
        chunk_start(total, tc, a) <= chunk_start(total, tc, b),
{
    let base = total / tc;
    lemma_fundamental_div_mod(total, tc);
    lemma_mod_bound(total, tc);
    assert(base >= 0) by {
        lemma_mul_inequality(0, tc, base);
        if base < 0 {
            lemma_mul_inequality(base, -1, tc);
            assert(tc * base <= -tc) by (nonlinear_arith)
                requires base <= -1 && tc >= 1;
        }
    }
    lemma_mul_inequality(a, b, base);
}

/// The chunks cover the resource exactly: the start of the (one past last)
/// chunk is `total`.
pub(crate) proof fn lemma_chunk_start_at(total: int, tc: int, i: int)
    requires
        1 <= tc,
        0 <= total,
        0 <= i <= tc,
    ensures
        chunk_start(total, tc, i) <= total,
        i == tc ==> chunk_start(total, tc, i) == total,
        i == num_chunks(total, tc) ==> chunk_start(total, tc, i) == total,
{
    let base = total / tc;
    let rem = total % tc;
    lemma_fundamental_div_mod(total, tc);
    lemma_mod_bound(total, tc);
    assert(base >= 0) by {
        if base < 0 {
            assert(tc * base <= -tc) by (nonlinear_arith)
                requires base <= -1 && tc >= 1;
        }
    }
    lemma_mul_inequality(i, tc, base);
    assert(tc * base == base * tc) by (nonlinear_arith);
    if total < tc {
        lemma_basic_div(total, tc);
        lemma_small_mod(total as nat, tc as nat);
        if i == num_chunks(total, tc) {
            assert(chunk_start(total, tc, i) == i * 0 + vstd::math::min(total, rem));
            assert(i * 0 == 0) by (nonlinear_arith);
        }
        if i == tc {
            assert(i * 0 == 0) by (nonlinear_arith);
        }
    }
}

/// A chunk is non-empty exactly when its number is below `num_chunks`.
proof fn lemma_chunk_size_pos(total: int, tc: int, i: int)
    requires
        1 <= tc,
        0 <= total,
        0 <= i < tc,
    ensures
        chunk_size(total, tc, i) >= 0,
        chunk_size(total, tc, i) > 0 <==> i < num_chunks(total, tc),
{
    let base = total / tc;
    lemma_fundamental_div_mod(total, tc);
    lemma_mod_bound(total, tc);
    assert(base >= 0) by {
        if base < 0 {
            assert(tc * base <= -tc) by (nonlinear_arith)
                requires base <= -1 && tc >= 1;
        }
    }
    if total < tc {
        lemma_basic_div(total, tc);
        lemma_small_mod(total as nat, tc as nat);
    } else {
        assert(base >= 1) by {
            if base == 0 {
                assert(tc * 0 == 0) by (nonlinear_arith);
            }
        }
    }
}

/// When a chunk carries the extra byte the quotient is small enough that the
/// extra byte cannot overflow `u64`.
proof fn lemma_base_small_when_rem(total: int, tc: int)
    requires
        1 <= tc,
        0 <= total <= u64::MAX,
        total % tc > 0,
    ensures
        total / tc < u64::MAX,
{
    let base = total / tc;
    lemma_fundamental_div_mod(total, tc);
    lemma_mod_bound(total, tc);
    assert(tc >= 2) by {
        if tc == 1 {
            assert(total % 1 == 0) by {
                lemma_fundamental_div_mod(total, 1);
            }
        }
    }
    assert(base >= 0) by {
        if base < 0 {
            assert(tc * base <= -tc) by (nonlinear_arith)
                requires base <= -1 && tc >= 1;
        }
    }
    assert(tc * base >= 2 * base) by {
        lemma_mul_inequality(2, tc, base);
        assert(2 * base == base * 2 && tc * base == base * tc) by (nonlinear_arith);
    }
}

/// Total number of bytes covered by a sequence of ranges.
pub open spec fn sum_range_lens(ranges: Seq<ChunkRange>) -> int
    decreases ranges.len(),
{
    if ranges.len() == 0 {
        0
    } else {
        sum_range_lens(ranges.drop_last()) + ranges.last().spec_len()
    }
}

/// The first `m` planned ranges cover exactly the bytes up to the `m`-th chunk
/// start.
proof fn lemma_sum_prefix(total: int, tc: int, ranges: Seq<ChunkRange>, m: int)
    requires
        1 <= tc,
        0 <= total,
        is_planned_ranges(total, tc, ranges),
        0 <= m <= ranges.len(),
    ensures
        sum_range_lens(ranges.take(m)) == chunk_start(total, tc, m),
    decreases m,
{
    if m == 0 {
        assert(ranges.take(0).len() == 0);
        assert(0int * (total / tc) == 0) by (nonlinear_arith);
    } else {
        lemma_sum_prefix(total, tc, ranges, m - 1);
        lemma_chunk_start_step(total, tc, m - 1);
        assert(ranges.take(m).drop_last() =~= ranges.take(m - 1));
        assert(ranges.take(m).last() == ranges[m - 1]);
    }
}

/// Byte `b` lies in one of the first `m` ranges.
pub open spec fn covered_within(ranges: Seq<ChunkRange>, m: int, b: int) -> bool {
    exists|j: int| 0 <= j < m && (#[trigger] ranges[j]).start <= b <= ranges[j].end_inclusive
}

/// Byte `b` lies in one of the ranges.
pub open spec fn covered(ranges: Seq<ChunkRange>, b: int) -> bool {
    covered_within(ranges, ranges.len() as int, b)
}

/// Every byte before the `m`-th chunk start lies in one of the first `m`
/// planned ranges.
proof fn lemma_covered_prefix(total: int, tc: int, ranges: Seq<ChunkRange>, m: int)
    requires
        1 <= tc,
        0 <= total,
        is_planned_ranges(total, tc, ranges),
        0 <= m <= ranges.len(),
    ensures
        forall|b: int| 0 <= b < chunk_start(total, tc, m) ==> #[trigger] covered_within(
            ranges,
            m,
            b,
        ),
    decreases m,
{
    if m > 0 {
        lemma_covered_prefix(total, tc, ranges, m - 1);
        lemma_chunk_start_step(total, tc, m - 1);
        assert forall|b: int| 0 <= b < chunk_start(total, tc, m) implies #[trigger] covered_within(
            ranges,
            m,
            b,
        ) by {
            if b < chunk_start(total, tc, m - 1) {
                assert(covered_within(ranges, m - 1, b));
                let j = choose|j: int|
                    0 <= j < m - 1 && (#[trigger] ranges[j]).start <= b <= ranges[j].end_inclusive;
                assert(ranges[j].start <= b <= ranges[j].end_inclusive);
            } else {
                assert(ranges[m - 1].start <= b <= ranges[m - 1].end_inclusive);
            }
        }
    } else {
        assert(0int * (total / tc) == 0) by (nonlinear_arith);
    }
}

/// The partition law of the planner: for every `(total, tc)` with `tc >= 1`,
/// the planned ranges are non-empty, ordered ascending by index and by start,
/// pairwise non-overlapping, jointly cover `[0, total)` exactly, and their
/// lengths differ by at most one byte.
pub proof fn lemma_plan_partition(total: int, tc: int, ranges: Seq<ChunkRange>)
    requires
        1 <= tc,
        0 <= total <= u64::MAX,
        is_planned_ranges(total, tc, ranges),
    ensures
        forall|j: int| 0 <= j < ranges.len() ==> (#[trigger] ranges[j]).wf(),
        forall|j: int| 0 <= j < ranges.len() ==> (#[trigger] ranges[j]).index == j,
        ranges.len() == 0 <==> total == 0,
        ranges.len() > 0 ==> ranges[0].start == 0,
        ranges.len() > 0 ==> ranges[ranges.len() - 1].end_inclusive == total - 1,
        forall|j: int|
            0 <= j < ranges.len() - 1 ==> (#[trigger] ranges[j]).end_inclusive + 1 == ranges[j
                + 1].start,
        forall|j: int, k: int|
            0 <= j < k < ranges.len() ==> (#[trigger] ranges[j]).end_inclusive
                < (#[trigger] ranges[k]).start,
        forall|j: int, k: int|
            0 <= j < ranges.len() && 0 <= k < ranges.len() ==> (#[trigger] ranges[j]).spec_len()
                - (#[trigger] ranges[k]).spec_len() <= 1,
        forall|b: int| 0 <= b < total ==> #[trigger] covered(ranges, b),
        sum_range_lens(ranges) == total,
{
    let n = ranges.len() as int;
    assert(0int * (total / tc) == 0) by (nonlinear_arith);
    assert forall|j: int| 0 <= j < n implies (#[trigger] ranges[j]).wf() by {
        lemma_chunk_start_step(total, tc, j);
        lemma_chunk_size_pos(total, tc, j);
        lemma_chunk_start_monotone(total, tc, 0, j);
        lemma_chunk_start_at(total, tc, j + 1);
    }
    if n > 0 {
        lemma_chunk_start_at(total, tc, n);
    }
    assert forall|j: int, k: int| 0 <= j < k < n implies (#[trigger] ranges[j]).end_inclusive
        < (#[trigger] ranges[k]).start by {
        lemma_chunk_start_monotone(total, tc, j + 1, k);
    }
    assert forall|j: int, k: int|
        0 <= j < n && 0 <= k < n implies (#[trigger] ranges[j]).spec_len()
        - (#[trigger] ranges[k]).spec_len() <= 1 by {
        lemma_chunk_start_step(total, tc, j);
        lemma_chunk_start_step(total, tc, k);
    }
    lemma_covered_prefix(total, tc, ranges, n);
    lemma_sum_prefix(total, tc, ranges, n);
    assert(ranges.take(n) =~= ranges);
}

/// Compute the ordered ranges for a `total_size`-byte download split across
/// `thread_count` chunks: near-equal sizes, the remainder spread one byte each
/// over the first chunks, empty chunks omitted.  Deterministic in its inputs,
/// which keeps range boundaries reproducible for resumption.
pub fn plan(total_size: u64, thread_count: usize) -> (ranges: Vec<ChunkRange>)
    requires
        1 <= thread_count,
        thread_count <= u32::MAX,
    ensures
        is_planned_ranges(total_size as int, thread_count as int, ranges@),
{
    let total: u64 = total_size;
    let tc64: u64 = thread_count as u64;
    let base: u64 = total / tc64;
    let rem: u64 = total % tc64;
    proof {
        lemma_fundamental_div_mod(total as int, tc64 as int);
        lemma_mod_bound(total as int, tc64 as int);
    }
    let mut ranges: Vec<ChunkRange> = Vec::new();
    let mut start: u64 = 0;
    let mut i: usize = 0;
    while i < thread_count
        invariant
            1 <= thread_count <= u32::MAX,
            tc64 == thread_count as u64,
            base == total as int / tc64 as int,
            rem == total as int % tc64 as int,
            0 <= i <= thread_count,
            start == chunk_start(total as int, tc64 as int, i as int),
            start <= total,
            ranges@.len() == vstd::math::min(i as int, num_chunks(total as int, tc64 as int)),
            forall|j: int|
                0 <= j < ranges@.len() ==> {
                    &&& (#[trigger] ranges@[j]).index == j
                    &&& ranges@[j].start == chunk_start(total as int, tc64 as int, j)
                    &&& ranges@[j].end_inclusive == chunk_start(total as int, tc64 as int, j + 1) - 1
                },
        decreases thread_count - i,
    {
        proof {
            lemma_chunk_start_step(total as int, tc64 as int, i as int);
            lemma_chunk_start_at(total as int, tc64 as int, i as int + 1);
            lemma_chunk_size_pos(total as int, tc64 as int, i as int);
            if (i as u64) < rem {
                lemma_base_small_when_rem(total as int, tc64 as int);
            }
        }
        let size: u64 = if (i as u64) < rem {
            base + 1
        } else {
            base
        };
        if size > 0 {
            ranges.push(ChunkRange { index: i as u32, start, end_inclusive: start + size - 1 });
        }
        start = start + size;
        i = i + 1;
    }
    proof {
        lemma_chunk_start_at(total as int, tc64 as int, num_chunks(total as int, tc64 as int));
    }
    ranges
}

} // verus!
