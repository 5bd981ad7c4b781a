//! Shared progress accounting: a single cumulative byte counter plus the job's
//! total, read non-destructively by an external reporter at any time.

use vstd::prelude::*;
use crate::range::{is_planned_ranges, lemma_plan_partition, sum_range_lens, ChunkRange};

verus! {

/// Cumulative count of bytes downloaded so far for one job, together with the
/// job's total size.  The counter only ever grows: `add` is the sole write
/// path, so the count is monotonically non-decreasing throughout a job.
pub struct ProgressTracker {
    downloaded: u64,
    total: u64,
}

impl ProgressTracker {
    /// Bytes recorded so far.
    pub closed spec fn spec_downloaded(self) -> u64 {
        self.downloaded
    }

    /// The job's total size, fixed at construction.
    pub closed spec fn spec_total(self) -> u64 {
        self.total
    }

    /// A fresh tracker for a job of `total` bytes starts at zero.
    pub fn new(total: u64) -> (t: Self)
        ensures
            t.spec_downloaded() == 0,
            t.spec_total() == total,
    {
        ProgressTracker { downloaded: 0, total }
    }

    /// Record `n` more downloaded bytes.  The count never decreases, and the
    /// total is untouched.
    pub fn add(&mut self, n: u64)
        requires
            old(self).spec_downloaded() + n <= u64::MAX,
        ensures
            final(self).spec_downloaded() == old(self).spec_downloaded() + n,
            final(self).spec_downloaded() >= old(self).spec_downloaded(),
            final(self).spec_total() == old(self).spec_total(),
    {
        self.downloaded = self.downloaded + n;
    }

    /// Current progress, for external reporting; never blocks and does not
    /// change the state.
    pub fn current(&self) -> (n: u64)
        ensures
            n == self.spec_downloaded(),
    {
        self.downloaded
    }

    /// The job's total size.
    pub fn total(&self) -> (n: u64)
        ensures
            n == self.spec_total(),
    {
        self.total
    }

    /// Whether the counter has reached the job's total.
    pub fn is_complete(&self) -> (b: bool)
        ensures
            b <==> self.spec_downloaded() == self.spec_total(),
    {
        self.downloaded == self.total
    }
}

/// The completion law of the counter: once every planned chunk has completed
/// successfully — each having added exactly its range's byte count, which is
/// what a finished `ChunkProgress` guarantees — the counter reads exactly the
/// job's total size.
pub proof fn lemma_progress_complete(
    total: int,
    tc: int,
    ranges: Seq<ChunkRange>,
    t: ProgressTracker,
)
    requires
        1 <= tc,
        0 <= total <= u64::MAX,
        is_planned_ranges(total, tc, ranges),
        t.spec_total() == total,
        t.spec_downloaded() == sum_range_lens(ranges),
    ensures
        t.spec_downloaded() == t.spec_total(),
{
    lemma_plan_partition(total, tc, ranges);
}

} // verus!
