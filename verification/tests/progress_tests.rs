use rawst::progress::ProgressTracker;
use rawst::range::plan;

#[test]
fn starts_at_zero() {
    let t = ProgressTracker::new(100);
    assert_eq!(t.current(), 0);
    assert_eq!(t.total(), 100);
    assert!(!t.is_complete());
}

#[test]
fn adds_accumulate_and_never_decrease() {
    let mut t = ProgressTracker::new(100);
    let mut last = t.current();
    for add in [10u64, 0, 25, 40, 25] {
        t.add(add);
        assert!(t.current() >= last);
        last = t.current();
    }
    assert_eq!(t.current(), 100);
    assert!(t.is_complete());
}

#[test]
fn completes_exactly_when_every_chunk_added_its_length() {
    let total: u64 = 1234;
    let ranges = plan(total, 5);
    let mut t = ProgressTracker::new(total);
    for r in &ranges {
        t.add(r.len());
        // complete only once the last chunk's bytes are in
        assert_eq!(t.is_complete(), r.index == ranges.len() as u32 - 1);
    }
    assert_eq!(t.current(), total);
}

#[test]
fn zero_byte_job_is_complete_at_once() {
    let t = ProgressTracker::new(0);
    assert!(t.is_complete());
}
