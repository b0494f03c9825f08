//! Batching arithmetic and the pipeline overlap bound on measured
//! stage timers.

use embed_pipeline::batching::chunk_bounds;
use embed_pipeline::schedule::run_total_timers;

/// Chunks tile the input in order: full batches, then the remainder.
#[test]
fn chunk_bounds_tiles_input() {
    assert_eq!(chunk_bounds(5, 2), vec![(0, 2), (2, 4), (4, 5)]);
    assert_eq!(chunk_bounds(4, 2), vec![(0, 2), (2, 4)]);
    assert_eq!(chunk_bounds(1, 100), vec![(0, 1)]);
    assert_eq!(chunk_bounds(0, 3), vec![]);
}

/// With computation dominant, the run costs the computations end to
/// end plus the first batch's load — not the sum of both stages.
#[test]
fn overlap_compute_dominant() {
    let load: Vec<u64> = vec![2, 1, 1];
    let compute: Vec<u64> = vec![5, 5, 5];
    let total = run_total_timers(&load, &compute);
    assert_eq!(total, 2 + 15);
    // Far below the serial sum.
    assert!(total < 4 + 15);
}

/// With load dominant, the run costs the loads end to end plus the
/// last batch's computation.
#[test]
fn overlap_load_dominant() {
    let load: Vec<u64> = vec![5, 5, 5];
    let compute: Vec<u64> = vec![1, 2, 1];
    let total = run_total_timers(&load, &compute);
    assert_eq!(total, 15 + 1);
    assert!(total < 15 + 4);
}

/// The general schedule follows the handoff recurrence and never
/// exceeds the serial sum.
#[test]
fn overlap_general_case() {
    let load: Vec<u64> = vec![1, 10, 1];
    let compute: Vec<u64> = vec![10, 1, 10];
    // Received at 1, then 1 + max(10, 10) = 11, then 11 + max(1, 1)
    // = 12; finished at 12 + 10.
    assert_eq!(run_total_timers(&load, &compute), 22);
    assert!(22 <= (1 + 10 + 1) + (10 + 1 + 10));
}

/// A single batch has no overlap: its load plus its computation.
#[test]
fn overlap_single_batch() {
    assert_eq!(run_total_timers(&vec![7], &vec![9]), 16);
}
