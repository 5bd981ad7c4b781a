//! Merging: the ordered concatenation of all chunk contents into the final
//! output, in ascending chunk-index order.

use vstd::prelude::*;
use crate::range::{
    chunk_start, is_planned_ranges, lemma_chunk_start_at, lemma_chunk_start_step,
    lemma_chunk_start_monotone, ChunkRange,
};

verus! {

/// Concatenation of the first `m` chunk byte sequences, in order.
pub open spec fn concat_prefix(chunks: Seq<Seq<u8>>, m: int) -> Seq<u8>
    decreases m,
{
    if m <= 0 {
        Seq::empty()
    } else {
        concat_prefix(chunks, m - 1) + chunks[m - 1]
    }
}

/// Concatenation of all chunk byte sequences, in ascending index order.
pub open spec fn concat_bytes(chunks: Seq<Seq<u8>>) -> Seq<u8> {
    concat_prefix(chunks, chunks.len() as int)
}

/// Append the bytes of every chunk, in ascending index order, to one output
/// buffer.  This is the byte-ordering heart of the merge step; the caller
/// writes the result to the destination file.
pub fn merge_chunks(chunks: &Vec<Vec<u8>>) -> (out: Vec<u8>)
    ensures
        out@ == concat_bytes(chunks.deep_view()),
{
    let ghost dv = chunks.deep_view();
    let mut out: Vec<u8> = Vec::new();
    let mut i: usize = 0;
    while i < chunks.len()
        invariant
            dv == chunks.deep_view(),
            dv.len() == chunks@.len(),
            forall|j: int| 0 <= j < dv.len() ==> dv[j] == chunks@[j]@,
            0 <= i <= chunks@.len(),
            out@ == concat_prefix(dv, i as int),
        decreases chunks@.len() - i,
    {
        let chunk = &chunks[i];
        let mut k: usize = 0;
        while k < chunk.len()
            invariant
                0 <= k <= chunk@.len(),
                out@ == concat_prefix(dv, i as int) + chunk@.take(k as int),
                0 <= i < chunks@.len(),
                dv[i as int] == chunk@,
            decreases chunk@.len() - k,
        {
            out.push(chunk[k]);
            assert(chunk@.take(k + 1) =~= chunk@.take(k as int).push(chunk@[k as int]));
            k = k + 1;
        }
        assert(chunk@.take(chunk@.len() as int) =~= chunk@);
        i = i + 1;
    }
    out
}

/// The reconstruction law of the merge: if the planned ranges for a
/// `total`-byte resource were each fetched exactly (chunk `j` holds the
/// resource's bytes over range `j`), then their concatenation in ascending
/// index order is the whole resource — same bytes, same length.
pub proof fn lemma_merge_reconstructs(
    total: int,
    tc: int,
    ranges: Seq<ChunkRange>,
    chunks: Seq<Seq<u8>>,
    resource: Seq<u8>,
)
    requires
        1 <= tc,
        0 <= total <= u64::MAX,
        is_planned_ranges(total, tc, ranges),
        resource.len() == total,
        chunks.len() == ranges.len(),
        forall|j: int|
            0 <= j < ranges.len() ==> (#[trigger] chunks[j]) == resource.subrange(
                ranges[j].start as int,
                ranges[j].end_inclusive + 1,
            ),
    ensures
        concat_bytes(chunks) == resource,
        concat_bytes(chunks).len() == total,
{
    lemma_merge_prefix(total, tc, ranges, chunks, resource, chunks.len() as int);
    lemma_chunk_start_at(total, tc, ranges.len() as int);
    assert(resource.subrange(0, total) =~= resource);
}

/// The first `m` chunks concatenate to the resource's bytes up to the `m`-th
/// chunk start.
proof fn lemma_merge_prefix(
    total: int,
    tc: int,
    ranges: Seq<ChunkRange>,
    chunks: Seq<Seq<u8>>,
    resource: Seq<u8>,
    m: int,
)
    requires
        1 <= tc,
        0 <= total <= u64::MAX,
        is_planned_ranges(total, tc, ranges),
        resource.len() == total,
        chunks.len() == ranges.len(),
        forall|j: int|
            0 <= j < ranges.len() ==> (#[trigger] chunks[j]) == resource.subrange(
                ranges[j].start as int,
                ranges[j].end_inclusive + 1,
            ),
        0 <= m <= chunks.len(),
    ensures
        concat_prefix(chunks, m) == resource.subrange(0, chunk_start(total, tc, m)),
    decreases m,
{
    if m == 0 {
        assert(chunk_start(total, tc, 0) == 0) by {
            assert(0int * (total / tc) == 0) by (nonlinear_arith);
        }
        assert(concat_prefix(chunks, 0) =~= resource.subrange(0, 0));
    } else {
        lemma_merge_prefix(total, tc, ranges, chunks, resource, m - 1);
        lemma_chunk_start_step(total, tc, m - 1);
        lemma_chunk_start_monotone(total, tc, 0, m - 1);
        lemma_chunk_start_at(total, tc, m);
        let a = chunk_start(total, tc, m - 1);
        let b = chunk_start(total, tc, m);
        assert(resource.subrange(0, b) =~= resource.subrange(0, a) + resource.subrange(a, b));
    }
}

} // verus!
