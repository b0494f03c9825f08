//! Pixel normalization: exact values, and the equivalence of the
//! scalar and the precomputed-table paths.

use embed_pipeline::preprocess::{normalize_pixel, normalize_scalar, to_chw, NormTable};

/// The affine transform hits its exact endpoints: byte 0 maps to
/// minus one, byte 255 maps to one.
#[test]
fn normalization_endpoints() {
    assert_eq!(normalize_pixel(0), (-1.0f32).to_bits());
    assert_eq!(normalize_pixel(255), 1.0f32.to_bits());
}

/// Every byte's normalized value matches the hardware float
/// reference computation bit for bit.
#[test]
fn normalization_matches_reference() {
    for v in 0..=255u8 {
        let expected = (v as f32 / 127.5f32 - 1.0f32).to_bits();
        assert_eq!(normalize_pixel(v), expected, "byte {}", v);
    }
}

/// Normalization equivalence: the scalar path and the
/// precomputed-table path produce identical output for the same
/// input bytes.
#[test]
fn scalar_and_table_paths_agree() {
    let table = NormTable::new();
    let pixels: Vec<u8> = (0..=255u8).chain((0..=255u8).rev()).collect();
    let scalar_out = normalize_scalar(&pixels);
    let table_out = table.normalize(&pixels);
    assert_eq!(scalar_out, table_out);
    assert_eq!(scalar_out.len(), pixels.len());
}

/// Interleaved rows reorder into planar channel-major layout.
#[test]
fn chw_reorders_channels() {
    // Two pixels wide, one pixel high: (r0 g0 b0) (r1 g1 b1).
    let pixels: Vec<u8> = vec![10, 20, 30, 11, 21, 31];
    let chw = to_chw(&pixels, 2, 1);
    assert_eq!(chw, vec![10, 11, 20, 21, 30, 31]);
}

/// An empty byte sequence normalizes to an empty output.
#[test]
fn normalize_empty() {
    let out = normalize_scalar(&Vec::new());
    assert!(out.is_empty());
}
