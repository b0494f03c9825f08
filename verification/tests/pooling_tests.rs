//! Pooling and normalization: exact means, exact norms, and the
//! guarded all-zero degenerate case.

use embed_pipeline::pooling::{l2_normalize, mean_pool, pool_and_normalize};

/// Mean pooling computes the exact per-coordinate mean over the
/// sequence axis.
#[test]
fn mean_pool_exact_values() {
    // One row, two sequence steps, two coordinates.
    let raw: Vec<u32> = vec![
        1.0f32.to_bits(),
        2.0f32.to_bits(),
        3.0f32.to_bits(),
        4.0f32.to_bits(),
    ];
    let pooled = mean_pool(&raw, 1, 2, 2);
    assert_eq!(pooled.len(), 1);
    assert_eq!(pooled[0], vec![2.0f32.to_bits(), 3.0f32.to_bits()]);
}

/// The Euclidean norm of a three-four vector is exactly five, and
/// the normalized coordinates are the exact hardware quotients.
#[test]
fn l2_normalize_exact_values() {
    let v: Vec<u32> = vec![3.0f32.to_bits(), 4.0f32.to_bits()];
    let (out, norm) = l2_normalize(&v);
    assert_eq!(norm, 5.0f32.to_bits());
    assert_eq!(out, vec![(3.0f32 / 5.0f32).to_bits(), (4.0f32 / 5.0f32).to_bits()]);
}

/// The degenerate case: a vector that pools to all zeros must
/// normalize to a defined all-zero vector, never an undefined value.
#[test]
fn zero_vector_normalizes_to_zero() {
    let v: Vec<u32> = vec![0, 0, 0, 0];
    let (out, norm) = l2_normalize(&v);
    assert_eq!(norm, 0);
    assert_eq!(out, vec![0, 0, 0, 0]);
    for bits in &out {
        assert!(!f32::from_bits(*bits).is_nan());
    }
}

/// The same guard through the whole post-inference step: raw model
/// output of zeros yields defined zero embeddings.
#[test]
fn zero_raw_output_stays_defined() {
    let raw: Vec<u32> = vec![0; 1 * 3 * 4];
    let (embeddings, norms) = pool_and_normalize(&raw, 1, 3, 4);
    assert_eq!(embeddings.len(), 1);
    assert_eq!(norms, vec![0]);
    assert_eq!(embeddings[0], vec![0, 0, 0, 0]);
}

/// The complete step on ordinary values: pooling then normalization,
/// each coordinate matching the hardware float reference.
#[test]
fn pool_and_normalize_matches_reference() {
    // Two rows, two steps, one coordinate each.
    let raw: Vec<u32> = vec![
        1.0f32.to_bits(),
        3.0f32.to_bits(), // row 0 pools to 2.0
        10.0f32.to_bits(),
        30.0f32.to_bits(), // row 1 pools to 20.0
    ];
    let (embeddings, norms) = pool_and_normalize(&raw, 2, 2, 1);
    // A one-coordinate vector normalizes to its value over its
    // magnitude: exactly one.
    assert_eq!(norms, vec![2.0f32.to_bits(), 20.0f32.to_bits()]);
    assert_eq!(embeddings[0], vec![1.0f32.to_bits()]);
    assert_eq!(embeddings[1], vec![1.0f32.to_bits()]);
}
