//! Job orchestration as a state machine: one status per planned chunk, and a
//! decision function that allows the merge step only once every chunk fetch
//! has succeeded.  The caller performs the actual network and file work and
//! reports each chunk's outcome back.

use vstd::prelude::*;
use vstd::pervasive::VecAdditionalExecFns;
use crate::errors::{DownloadError, FetchFailure};
use crate::range::{is_planned_ranges, plan, ChunkRange};

verus! {

/// One download invocation: where the bytes come from, where they go, and how
/// the transfer is split.  Immutable for the duration of the job.
pub struct DownloadJob {
    pub url: String,
    pub output_filename: String,
    pub output_dir: String,
    pub temp_dir: String,
    pub thread_count: usize,
    pub total_size: u64,
}

impl DownloadJob {
    /// A job's parallelism is at least one chunk and its chunk indices fit in
    /// `u32`.
    pub open spec fn wf(self) -> bool {
        1 <= self.thread_count <= u32::MAX
    }

    /// Describe one download.  An unusable thread count is a caller error,
    /// rejected here at the boundary, before any network activity.
    pub fn new(
        url: String,
        output_filename: String,
        output_dir: String,
        temp_dir: String,
        thread_count: usize,
        total_size: u64,
    ) -> (r: Result<DownloadJob, DownloadError>)
        ensures
            r is Ok <==> 1 <= thread_count <= u32::MAX,
            r is Err ==> r == Err::<DownloadJob, DownloadError>(DownloadError::InvalidThreadCount),
            r matches Ok(job) ==> {
                &&& job.wf()
                &&& job.url@ == url@
                &&& job.output_filename@ == output_filename@
                &&& job.output_dir@ == output_dir@
                &&& job.temp_dir@ == temp_dir@
                &&& job.thread_count == thread_count
                &&& job.total_size == total_size
            },
    {
        if thread_count == 0 || thread_count > u32::MAX as usize {
            return Err(DownloadError::InvalidThreadCount);
        }
        Ok(DownloadJob { url, output_filename, output_dir, temp_dir, thread_count, total_size })
    }
}

/// What has become of one planned chunk.
#[derive(Clone, Copy, Debug, PartialEq, Eq, Structural)]
pub enum ChunkStatus {
    /// The fetch task has not resolved yet.
    Pending,
    /// The chunk's temporary file is fully written.
    Done,
    /// The fetch failed for the recorded reason.
    Failed(FetchFailure),
}

/// What the engine should do next.
#[derive(Clone, Copy, Debug, PartialEq, Eq, Structural)]
pub enum JobAction {
    /// Some fetch tasks are still in flight: keep waiting for the join.
    Wait,
    /// Every chunk succeeded: merge the temporary files.
    Merge,
    /// All tasks resolved and at least one failed: report failure, never
    /// merge, and leave the surviving temporary files on disk.
    Fail,
}

/// Tracking state for one job: the planned ranges and one status per range.
pub struct JobState {
    pub total_size: u64,
    pub thread_count: usize,
    pub ranges: Vec<ChunkRange>,
    pub status: Vec<ChunkStatus>,
}

impl JobState {
    /// The ranges are exactly the planner's output and each has a status.
    pub open spec fn wf(self) -> bool {
        &&& 1 <= self.thread_count <= u32::MAX
        &&& is_planned_ranges(self.total_size as int, self.thread_count as int, self.ranges@)
        &&& self.status@.len() == self.ranges@.len()
    }

    /// Every chunk fetch has succeeded.
    pub open spec fn all_done(self) -> bool {
        forall|j: int| 0 <= j < self.status@.len() ==> (#[trigger] self.status@[j]) is Done
    }

    /// Some chunk fetch has not resolved yet.
    pub open spec fn any_pending(self) -> bool {
        exists|j: int| 0 <= j < self.status@.len() && (#[trigger] self.status@[j]) is Pending
    }

    /// Some chunk fetch has failed.
    pub open spec fn any_failed(self) -> bool {
        exists|j: int| 0 <= j < self.status@.len() && (#[trigger] self.status@[j]) is Failed
    }

    /// Start tracking a job: plan the ranges for the resource's content
    /// length, every chunk pending.  Rejected before any network activity:
    /// an unusable thread count, or a resource whose content length the
    /// server did not reveal, can produce no plan.
    pub fn new(content_length: Option<u64>, thread_count: usize) -> (r: Result<
        JobState,
        DownloadError,
    >)
        ensures
            r is Ok <==> (1 <= thread_count <= u32::MAX && content_length is Some),
            (thread_count == 0 || thread_count > u32::MAX) ==> r == Err::<
                JobState,
                DownloadError,
            >(DownloadError::InvalidThreadCount),
            (1 <= thread_count <= u32::MAX && content_length is None) ==> r == Err::<
                JobState,
                DownloadError,
            >(DownloadError::UnknownContentLength),
            r matches Ok(s) ==> {
                &&& s.wf()
                &&& s.total_size == content_length.unwrap()
                &&& s.thread_count == thread_count
                &&& forall|j: int|
                    0 <= j < s.status@.len() ==> (#[trigger] s.status@[j]) is Pending
            },
    {
        if thread_count == 0 || thread_count > u32::MAX as usize {
            return Err(DownloadError::InvalidThreadCount);
        }
        let total_size = match content_length {
            None => { return Err(DownloadError::UnknownContentLength); },
            Some(n) => n,
        };
        let ranges = plan(total_size, thread_count);
        let mut status: Vec<ChunkStatus> = Vec::new();
        let mut j: usize = 0;
        while j < ranges.len()
            invariant
                0 <= j <= ranges@.len(),
                status@.len() == j,
                forall|k: int| 0 <= k < j ==> (#[trigger] status@[k]) is Pending,
            decreases ranges@.len() - j,
        {
            status.push(ChunkStatus::Pending);
            j = j + 1;
        }
        Ok(JobState { total_size, thread_count, ranges, status })
    }

    /// Record that chunk `j`'s temporary file is fully written.
    pub fn mark_done(&mut self, j: usize)
        requires
            old(self).wf(),
            j < old(self).status@.len(),
        ensures
            final(self).wf(),
            final(self).status@ == old(self).status@.update(j as int, ChunkStatus::Done),
            final(self).ranges@ == old(self).ranges@,
            final(self).total_size == old(self).total_size,
            final(self).thread_count == old(self).thread_count,
    {
        self.status.set(j, ChunkStatus::Done);
    }

    /// Record that chunk `j`'s fetch failed for reason `failure`.
    pub fn mark_failed(&mut self, j: usize, failure: FetchFailure)
        requires
            old(self).wf(),
            j < old(self).status@.len(),
        ensures
            final(self).wf(),
            final(self).status@ == old(self).status@.update(
                j as int,
                ChunkStatus::Failed(failure),
            ),
            final(self).ranges@ == old(self).ranges@,
            final(self).total_size == old(self).total_size,
            final(self).thread_count == old(self).thread_count,
    {
        self.status.set(j, ChunkStatus::Failed(failure));
    }

    /// Decide the next step.  The merge step is allowed exactly when every
    /// chunk ultimately succeeded; while any task is in flight the engine
    /// keeps waiting (in-flight tasks are allowed to finish), and once all
    /// have resolved with at least one failure the job fails.
    pub fn next_action(&self) -> (a: JobAction)
        requires
            self.wf(),
        ensures
            a == JobAction::Merge <==> self.all_done(),
            a == JobAction::Wait <==> self.any_pending(),
            a == JobAction::Fail <==> (!self.any_pending() && self.any_failed()),
    {
        let mut has_pending = false;
        let mut has_failed = false;
        let mut j: usize = 0;
        while j < self.status.len()
            invariant
                0 <= j <= self.status@.len(),
                has_pending <==> exists|k: int|
                    0 <= k < j && (#[trigger] self.status@[k]) is Pending,
                has_failed <==> exists|k: int|
                    0 <= k < j && (#[trigger] self.status@[k]) is Failed,
            decreases self.status@.len() - j,
        {
            match self.status[j] {
                ChunkStatus::Pending => { has_pending = true; },
                ChunkStatus::Failed(_) => { has_failed = true; },
                ChunkStatus::Done => {},
            }
            j = j + 1;
        }
        if has_pending {
            JobAction::Wait
        } else if has_failed {
            JobAction::Fail
        } else {
            assert forall|k: int| 0 <= k < self.status@.len() implies (
            #[trigger] self.status@[k]) is Done by {
                match self.status@[k] {
                    ChunkStatus::Pending => {},
                    ChunkStatus::Done => {},
                    ChunkStatus::Failed(_) => {},
                }
            }
            JobAction::Merge
        }
    }

    /// Feed the joined fetch outcomes — one per chunk, in index order, `None`
    /// for success — into the state and aggregate them into the job's single
    /// terminal result: success exactly when every chunk succeeded, otherwise
    /// the first failure by ascending index.  Only after a success here may
    /// the merge step run.
    pub fn resolve(&mut self, outcomes: &Vec<Option<FetchFailure>>) -> (r: Result<
        (),
        DownloadError,
    >)
        requires
            old(self).wf(),
            outcomes@.len() == old(self).status@.len(),
        ensures
            final(self).wf(),
            final(self).ranges@ == old(self).ranges@,
            final(self).total_size == old(self).total_size,
            final(self).thread_count == old(self).thread_count,
            r is Ok <==> forall|j: int|
                0 <= j < outcomes@.len() ==> (#[trigger] outcomes@[j]) is None,
            r is Ok ==> final(self).all_done(),
            r matches Err(e) ==> exists|j: int|
                {
                    &&& 0 <= j < outcomes@.len()
                    &&& (#[trigger] outcomes@[j]) matches Some(f) && e == (DownloadError::Chunk {
                        index: j as u32,
                        failure: f,
                    })
                    &&& forall|k: int| 0 <= k < j ==> (#[trigger] outcomes@[k]) is None
                },
    {
        let mut j: usize = 0;
        while j < outcomes.len()
            invariant
                self.wf(),
                outcomes@.len() == self.status@.len(),
                self.ranges@ == old(self).ranges@,
                self.total_size == old(self).total_size,
                self.thread_count == old(self).thread_count,
                0 <= j <= outcomes@.len(),
                forall|k: int|
                    0 <= k < j ==> ((#[trigger] outcomes@[k]) is None <==> self.status@[k]
                        is Done),
                forall|k: int|
                    0 <= k < j ==> ((#[trigger] outcomes@[k]) matches Some(f) ==> self.status@[k]
                        == ChunkStatus::Failed(f)),
                forall|k: int| 0 <= k < j ==> !((#[trigger] self.status@[k]) is Pending),
            decreases outcomes@.len() - j,
        {
            match outcomes[j] {
                None => self.mark_done(j),
                Some(f) => self.mark_failed(j, f),
            }
            j = j + 1;
        }
        match self.first_error() {
            None => {
                assert forall|k: int| 0 <= k < outcomes@.len() implies (
                #[trigger] outcomes@[k]) is None by {
                    assert(!(self.status@[k] is Failed));
                    match outcomes@[k] {
                        Option::None => {},
                        Option::Some(f) => {},
                    }
                }
                Ok(())
            },
            Some(e) => {
                assert(self.any_failed());
                let ghost jw = choose|jj: int|
                    {
                        &&& 0 <= jj < self.status@.len()
                        &&& (#[trigger] self.status@[jj]) matches ChunkStatus::Failed(f) && e == (
                        DownloadError::Chunk { index: jj as u32, failure: f })
                        &&& forall|k: int| 0 <= k < jj ==> !((#[trigger] self.status@[k]) is Failed)
                    };
                assert forall|k: int| 0 <= k < jw implies (#[trigger] outcomes@[k]) is None by {
                    assert(!(self.status@[k] is Failed));
                    match outcomes@[k] {
                        Option::None => {},
                        Option::Some(f) => {},
                    }
                }
                assert(outcomes@[jw] matches Some(f) && e == (DownloadError::Chunk {
                    index: jw as u32,
                    failure: f,
                })) by {
                    match outcomes@[jw] {
                        Option::None => {},
                        Option::Some(f) => {},
                    }
                }
                Err(e)
            },
        }
    }

    /// The failure the job reports: the first failing chunk, by ascending
    /// index; failures of later chunks are not silently lost, but only one is
    /// surfaced.
    pub fn first_error(&self) -> (r: Option<DownloadError>)
        requires
            self.wf(),
        ensures
            r is Some <==> self.any_failed(),
            r matches Some(e) ==> exists|j: int|
                {
                    &&& 0 <= j < self.status@.len()
                    &&& (#[trigger] self.status@[j]) matches ChunkStatus::Failed(f) && e
                        == (DownloadError::Chunk { index: j as u32, failure: f })
                    &&& forall|k: int| 0 <= k < j ==> !((#[trigger] self.status@[k]) is Failed)
                },
    {
        let mut j: usize = 0;
        while j < self.status.len()
            invariant
                self.wf(),
                0 <= j <= self.status@.len(),
                forall|k: int| 0 <= k < j ==> !((#[trigger] self.status@[k]) is Failed),
            decreases self.status@.len() - j,
        {
            match self.status[j] {
                ChunkStatus::Failed(f) => {
                    return Some(DownloadError::Chunk { index: j as u32, failure: f });
                },
                _ => {},
            }
            j = j + 1;
        }
        None
    }
}

} // verus!
