use rawst::range::{plan, ChunkRange};

#[test]
fn scenario_100_bytes_3_threads() {
    let r = plan(100, 3);
    assert_eq!(r.len(), 3);
    assert_eq!(
        r[0],
        ChunkRange { index: 0, start: 0, end_inclusive: 33 }
    );
    assert_eq!(
        r[1],
        ChunkRange { index: 1, start: 34, end_inclusive: 66 }
    );
    assert_eq!(
        r[2],
        ChunkRange { index: 2, start: 67, end_inclusive: 99 }
    );
    assert_eq!(r[0].len(), 34);
    assert_eq!(r[1].len(), 33);
    assert_eq!(r[2].len(), 33);
}

#[test]
fn zero_total_is_a_no_op_plan() {
    // Documented choice: a zero-byte download plans no ranges at all.
    let r = plan(0, 3);
    assert!(r.is_empty());
}

#[test]
fn exact_division() {
    let r = plan(100, 4);
    assert_eq!(r.len(), 4);
    for (i, c) in r.iter().enumerate() {
        assert_eq!(c.len(), 25);
        assert_eq!(c.start, 25 * i as u64);
        assert_eq!(c.end_inclusive, 25 * i as u64 + 24);
    }
}

#[test]
fn more_threads_than_bytes() {
    let r = plan(2, 3);
    assert_eq!(r.len(), 2);
    assert_eq!(
        r[0],
        ChunkRange { index: 0, start: 0, end_inclusive: 0 }
    );
    assert_eq!(
        r[1],
        ChunkRange { index: 1, start: 1, end_inclusive: 1 }
    );
}

#[test]
fn single_thread_takes_everything() {
    let r = plan(5, 1);
    assert_eq!(r.len(), 1);
    assert_eq!(
        r[0],
        ChunkRange { index: 0, start: 0, end_inclusive: 4 }
    );
}

#[test]
fn largest_total_size() {
    let r = plan(u64::MAX, 2);
    assert_eq!(r.len(), 2);
    assert_eq!(r[0].start, 0);
    assert_eq!(r[0].len(), u64::MAX / 2 + 1);
    assert_eq!(r[1].end_inclusive, u64::MAX - 1);
    assert_eq!(r[1].len(), u64::MAX / 2);
}

#[test]
fn partition_properties_on_samples() {
    for &(total, tc) in &[
        (1u64, 1usize),
        (7, 2),
        (100, 3),
        (100, 7),
        (1000, 13),
        (12, 12),
        (12, 17),
        (u32::MAX as u64, 5),
    ] {
        let r = plan(total, tc);
        // ordered ascending by index and start, consecutive without gaps
        let mut expected_next: u64 = 0;
        for (i, c) in r.iter().enumerate() {
            assert_eq!(c.index as usize, i);
            assert_eq!(c.start, expected_next);
            assert!(c.start <= c.end_inclusive);
            expected_next = c.end_inclusive + 1;
        }
        // jointly cover [0, total) exactly
        assert_eq!(expected_next, total);
        // lengths differ by at most one byte
        let min = r.iter().map(|c| c.len()).min().unwrap();
        let max = r.iter().map(|c| c.len()).max().unwrap();
        assert!(max - min <= 1);
        // sizes sum to the total
        let sum: u64 = r.iter().map(|c| c.len()).sum();
        assert_eq!(sum, total);
    }
}
