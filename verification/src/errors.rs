//! Error taxonomy of the download engine: planning errors surface before any
//! network activity, fetch failures are attributable to one chunk, and merge
//! failures occur only after every fetch succeeded.

use vstd::prelude::*;

verus! {

/// Why a single chunk fetch failed.
#[derive(Clone, Copy, Debug, PartialEq, Eq, Structural)]
pub enum FetchFailure {
    /// Transport-level failure of the HTTP request or of reading its body.
    Transport,
    /// The server answered a range request with a full-content `200` response;
    /// writing it would corrupt the chunk boundary contract.
    FullContentResponse,
    /// Any status other than `206 Partial Content` or `200`.
    UnexpectedStatus,
    /// The response announced a content length that differs from the length of
    /// the requested range.
    LengthMismatch,
    /// The body carried more bytes than the requested range.
    TooManyBytes,
    /// The body ended before the requested range was fully written.
    Incomplete,
    /// Local I/O failure while writing the chunk's temporary file.
    TempFileIo,
}

/// One terminal failure per job.
#[derive(Clone, Copy, Debug, PartialEq, Eq, Structural)]
pub enum DownloadError {
    /// The caller asked for zero (or an unrepresentably large) number of
    /// chunks; rejected before any network activity.
    InvalidThreadCount,
    /// The remote resource's content length could not be determined, so no
    /// ranges can be planned.
    UnknownContentLength,
    /// A specific chunk fetch failed, aborting the job before any merge.
    Chunk { index: u32, failure: FetchFailure },
    /// I/O failure while reading a temporary file or writing the destination;
    /// the partial output file is left in place.
    MergeFailed,
}

} // verus!
