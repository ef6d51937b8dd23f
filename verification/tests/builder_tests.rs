use render_core::builder::{
    chunk_sizes, concat_results, plan_cache_merge, split_requests, worker_count,
};

#[test]
fn worker_count_is_bounded_and_positive() {
    assert_eq!(worker_count(4, 10), 4);
    assert_eq!(worker_count(16, 3), 3);
    assert_eq!(worker_count(4, 0), 1);
    assert_eq!(worker_count(0, 5), 1);
    assert_eq!(worker_count(1, 1), 1);
}

#[test]
fn ten_requests_over_four_workers() {
    // Ten requests at a parallelism of four: four chunks whose sizes sum
    // to ten, and exactly ten results out.
    let workers = worker_count(4, 10);
    assert_eq!(workers, 4);
    let sizes = chunk_sizes(10, workers);
    assert_eq!(sizes, vec![3, 3, 2, 2]);
    assert_eq!(sizes.iter().sum::<usize>(), 10);

    let requests: Vec<u32> = (0..10).collect();
    let chunks = split_requests(requests, workers);
    assert_eq!(chunks.len(), 4);
    let lens: Vec<usize> = chunks.iter().map(|c| c.len()).collect();
    assert_eq!(lens, vec![3, 3, 2, 2]);
    let output = concat_results(chunks);
    assert_eq!(output.len(), 10);
    assert_eq!(output, (0..10).collect::<Vec<u32>>());
}

#[test]
fn chunks_preserve_order_within_and_across() {
    let requests = vec!["a", "b", "c", "d", "e"];
    let chunks = split_requests(requests.clone(), 2);
    assert_eq!(chunks[0], vec!["a", "b", "c"]);
    assert_eq!(chunks[1], vec!["d", "e"]);
    assert_eq!(concat_results(chunks), requests);
}

#[test]
fn one_worker_takes_everything() {
    let requests = vec![7u8, 8, 9];
    let chunks = split_requests(requests.clone(), 1);
    assert_eq!(chunks.len(), 1);
    assert_eq!(chunks[0], requests);
}

#[test]
fn more_workers_than_requests_leaves_empty_chunks() {
    let chunks = split_requests(vec![1u8, 2], 4);
    assert_eq!(chunks.len(), 4);
    assert_eq!(chunks[0], vec![1]);
    assert_eq!(chunks[1], vec![2]);
    assert!(chunks[2].is_empty());
    assert!(chunks[3].is_empty());
}

#[test]
fn single_cache_needs_no_merge() {
    // Merge idempotence: one per-worker cache means no merge call at all,
    // and the blob is read straight from that cache.
    let plan = plan_cache_merge(1);
    assert_eq!(plan.destination, 0);
    assert!(plan.sources.is_empty());
}

#[test]
fn merge_targets_the_last_cache() {
    let plan = plan_cache_merge(4);
    assert_eq!(plan.destination, 3);
    assert_eq!(plan.sources, vec![0, 1, 2]);
}
