use rawst::merge::merge_chunks;
use rawst::range::plan;

#[test]
fn concatenates_in_index_order() {
    let chunks = vec![vec![1u8, 2, 3], vec![4, 5], vec![6]];
    assert_eq!(merge_chunks(&chunks), vec![1, 2, 3, 4, 5, 6]);
}

#[test]
fn merging_nothing_gives_an_empty_output() {
    let chunks: Vec<Vec<u8>> = Vec::new();
    assert_eq!(merge_chunks(&chunks), Vec::<u8>::new());
}

#[test]
fn merged_output_matches_a_single_stream_reference() {
    // The reference: what one full-content download of the resource would hold.
    let resource: Vec<u8> = (0..=255u8).cycle().take(1000).collect();
    let ranges = plan(resource.len() as u64, 7);
    let chunks: Vec<Vec<u8>> = ranges
        .iter()
        .map(|r| resource[r.start as usize..=r.end_inclusive as usize].to_vec())
        .collect();
    let merged = merge_chunks(&chunks);
    assert_eq!(merged.len() as u64, resource.len() as u64);
    assert_eq!(merged, resource);
}

#[test]
fn merge_sees_only_the_last_successful_fetch() {
    let resource: Vec<u8> = (1..=30u8).collect();
    let ranges = plan(30, 3);
    let mut chunks: Vec<Vec<u8>> = ranges
        .iter()
        .map(|r| resource[r.start as usize..=r.end_inclusive as usize].to_vec())
        .collect();
    // a prior partial attempt of chunk 1 left garbage, then a retry fully
    // overwrote its temporary file with the correct bytes
    chunks[1] = vec![0u8; 4];
    chunks[1] = resource[10..20].to_vec();
    assert_eq!(merge_chunks(&chunks), resource);
}
