//! Chunk-fetch tracking: validating a server's answer to a range request and
//! accounting for the bytes streamed into the chunk's temporary file.

use vstd::prelude::*;
use crate::errors::FetchFailure;
use crate::range::ChunkRange;

verus! {

/// Byte accounting for one chunk fetch: how many bytes the range asks for and
/// how many have been written to the chunk's temporary file so far.
#[derive(Clone, Copy, Debug, PartialEq, Eq, Structural)]
pub struct ChunkProgress {
    pub expected: u64,
    pub written: u64,
}

/// The state a fetch of `range` starts from: nothing written yet.
pub open spec fn begin_spec(range: ChunkRange) -> ChunkProgress {
    ChunkProgress { expected: range.spec_len() as u64, written: 0 }
}

/// The state a re-fetch starts from: the temporary file is created anew, so
/// any previously written bytes are discarded.
pub open spec fn restart_spec(s: ChunkProgress) -> ChunkProgress {
    ChunkProgress { expected: s.expected, written: 0 }
}

impl ChunkProgress {
    /// No more bytes written than asked for.
    pub open spec fn wf(self) -> bool {
        self.written <= self.expected
    }

    /// Start fetching `range` into a fresh temporary file.
    pub fn begin(range: &ChunkRange) -> (s: Self)
        requires
            range.wf(),
        ensures
            s == begin_spec(*range),
            s.wf(),
            s.written == 0,
            s.expected == range.spec_len(),
    {
        ChunkProgress { expected: range.len(), written: 0 }
    }

    /// Start the same fetch over, overwriting the temporary file in place;
    /// the previous partial write is discarded entirely.
    pub fn restart(&mut self)
        ensures
            *final(self) == restart_spec(*old(self)),
            final(self).written == 0,
            final(self).expected == old(self).expected,
            final(self).wf(),
    {
        self.written = 0;
    }

    /// Account for `n` more body bytes written to the temporary file.
    /// Succeeds exactly when the range's budget is not exceeded; on failure
    /// the state is unchanged and the fetch must be abandoned or restarted.
    pub fn record(&mut self, n: u64) -> (r: Result<(), FetchFailure>)
        requires
            old(self).wf(),
        ensures
            r is Ok <==> old(self).written + n <= old(self).expected,
            r is Ok ==> final(self).written == old(self).written + n,
            r is Ok ==> final(self).expected == old(self).expected,
            r is Err ==> *final(self) == *old(self),
            r is Err ==> r == Err::<(), FetchFailure>(FetchFailure::TooManyBytes),
            final(self).wf(),
    {
        if n <= self.expected - self.written {
            self.written = self.written + n;
            Ok(())
        } else {
            Err(FetchFailure::TooManyBytes)
        }
    }

    /// End of the response body: the fetch succeeded exactly when the range
    /// was written in full.
    pub fn finish(&self) -> (r: Result<(), FetchFailure>)
        ensures
            r is Ok <==> self.written == self.expected,
            r is Err ==> r == Err::<(), FetchFailure>(FetchFailure::Incomplete),
    {
        if self.written == self.expected {
            Ok(())
        } else {
            Err(FetchFailure::Incomplete)
        }
    }
}

/// Validate the server's answer to the range request for `range` before any
/// byte is written: only a `206 Partial Content` response whose announced
/// content length (if any) equals the range's length may be streamed.  A full
/// `200` response is a distinct failure, since writing it would corrupt the
/// chunk boundary contract.
pub fn check_range_response(status: u16, content_length: Option<u64>, range: &ChunkRange) -> (r:
    Result<(), FetchFailure>)
    requires
        range.wf(),
    ensures
        r is Ok <==> (status == 206 && (content_length is None || content_length == Some(
            range.spec_len() as u64,
        ))),
        status == 200 ==> r == Err::<(), FetchFailure>(FetchFailure::FullContentResponse),
        status != 200 && status != 206 ==> r == Err::<(), FetchFailure>(
            FetchFailure::UnexpectedStatus,
        ),
        status == 206 && !(content_length is None) && content_length != Some(
            range.spec_len() as u64,
        ) ==> r == Err::<(), FetchFailure>(FetchFailure::LengthMismatch),
{
    if status == 200 {
        return Err(FetchFailure::FullContentResponse);
    }
    if status != 206 {
        return Err(FetchFailure::UnexpectedStatus);
    }
    match content_length {
        None => Ok(()),
        Some(l) => {
            if l == range.len() {
                Ok(())
            } else {
                Err(FetchFailure::LengthMismatch)
            }
        },
    }
}

/// The idempotence law of re-fetching: restarting after a prior partial write
/// of this range puts the fetch in exactly the state a first fetch of the
/// range starts from, so every later step behaves identically — the outcome
/// depends only on the range, not on how often the chunk was attempted.
pub proof fn lemma_refetch_idempotent(range: ChunkRange, prior: ChunkProgress)
    requires
        range.wf(),
        prior.expected == range.spec_len(),
    ensures
        restart_spec(prior) == begin_spec(range),
{
}

} // verus!
