use rawst::engine::{ChunkStatus, DownloadJob, JobAction, JobState};
use rawst::errors::{DownloadError, FetchFailure};

#[test]
fn zero_threads_is_rejected_before_any_network_activity() {
    let r = JobState::new(Some(100), 0);
    assert_eq!(r.err(), Some(DownloadError::InvalidThreadCount));
}

#[test]
fn unknown_content_length_is_rejected() {
    let r = JobState::new(None, 3);
    assert_eq!(r.err(), Some(DownloadError::UnknownContentLength));
}

#[test]
fn fresh_job_waits_for_its_chunks() {
    let s = JobState::new(Some(90), 3).unwrap();
    assert_eq!(s.total_size, 90);
    assert_eq!(s.ranges.len(), 3);
    assert_eq!(s.status.len(), 3);
    assert!(s.status.iter().all(|c| *c == ChunkStatus::Pending));
    assert_eq!(s.next_action(), JobAction::Wait);
    assert_eq!(s.first_error(), None);
}

#[test]
fn one_failed_chunk_fails_the_job_and_never_merges() {
    let mut s = JobState::new(Some(90), 3).unwrap();
    s.mark_done(0);
    s.mark_failed(1, FetchFailure::Transport);
    // one task still in flight: keep waiting, do not merge
    assert_eq!(s.next_action(), JobAction::Wait);
    s.mark_done(2);
    // all resolved, one failure: the job fails and the merger is never invoked
    assert_eq!(s.next_action(), JobAction::Fail);
    assert_eq!(
        s.first_error(),
        Some(DownloadError::Chunk { index: 1, failure: FetchFailure::Transport })
    );
}

#[test]
fn first_of_several_failures_is_reported() {
    let mut s = JobState::new(Some(90), 3).unwrap();
    s.mark_failed(2, FetchFailure::Incomplete);
    s.mark_failed(0, FetchFailure::UnexpectedStatus);
    s.mark_done(1);
    assert_eq!(s.next_action(), JobAction::Fail);
    assert_eq!(
        s.first_error(),
        Some(DownloadError::Chunk { index: 0, failure: FetchFailure::UnexpectedStatus })
    );
}

#[test]
fn all_chunks_done_allows_the_merge() {
    let mut s = JobState::new(Some(90), 3).unwrap();
    s.mark_done(0);
    s.mark_done(1);
    s.mark_done(2);
    assert_eq!(s.next_action(), JobAction::Merge);
    assert_eq!(s.first_error(), None);
}

#[test]
fn zero_byte_job_merges_immediately() {
    let s = JobState::new(Some(0), 3).unwrap();
    assert!(s.ranges.is_empty());
    assert_eq!(s.next_action(), JobAction::Merge);
}

#[test]
fn resolving_all_successes_allows_the_merge() {
    let mut s = JobState::new(Some(90), 3).unwrap();
    let r = s.resolve(&vec![None, None, None]);
    assert_eq!(r, Ok(()));
    assert_eq!(s.next_action(), JobAction::Merge);
}

#[test]
fn resolving_with_a_failure_reports_the_first_one() {
    let mut s = JobState::new(Some(90), 3).unwrap();
    let r = s.resolve(&vec![
        None,
        Some(FetchFailure::Transport),
        Some(FetchFailure::Incomplete),
    ]);
    assert_eq!(
        r,
        Err(DownloadError::Chunk { index: 1, failure: FetchFailure::Transport })
    );
    assert_eq!(s.next_action(), JobAction::Fail);
}

#[test]
fn download_job_carries_its_parameters() {
    let job = DownloadJob::new(
        String::from("http://example.org/data.bin"),
        String::from("data.bin"),
        String::from("/downloads"),
        String::from("/cache"),
        4,
        1024,
    )
    .unwrap();
    assert_eq!(job.url, "http://example.org/data.bin");
    assert_eq!(job.output_filename, "data.bin");
    assert_eq!(job.output_dir, "/downloads");
    assert_eq!(job.temp_dir, "/cache");
    assert_eq!(job.thread_count, 4);
    assert_eq!(job.total_size, 1024);
}

#[test]
fn download_job_rejects_zero_threads() {
    let r = DownloadJob::new(
        String::from("http://example.org/data.bin"),
        String::from("data.bin"),
        String::from("/downloads"),
        String::from("/cache"),
        0,
        1024,
    );
    assert_eq!(r.err(), Some(DownloadError::InvalidThreadCount));
}
