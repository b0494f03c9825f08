//! Decoding and resizing through the batch assembly.

use embed_pipeline::imaging::{assemble_batch, LoadedFile};
use embed_pipeline::preprocess::{normalize_scalar, to_chw};
use embed_pipeline::tensor::prepare_image;

fn png_of(pixels: &[u8], w: u32, h: u32) -> Vec<u8> {
    let img = image::RgbImage::from_raw(w, h, pixels.to_vec()).unwrap();
    let mut buf: Vec<u8> = Vec::new();
    let mut cursor = std::io::Cursor::new(&mut buf);
    image::DynamicImage::ImageRgb8(img)
        .write_to(&mut cursor, image::ImageFormat::Png)
        .unwrap();
    buf
}

/// A lossless image decodes back to its exact pixels, dimensions and
/// all — the decoded grid is not the encoded byte stream.
#[test]
fn decode_roundtrips_pixels() {
    let pixels: Vec<u8> = vec![1, 2, 3, 4, 5, 6, 7, 8, 9, 10, 11, 12];
    let bytes = png_of(&pixels, 2, 2);
    assert_ne!(bytes, pixels);
    let batch = assemble_batch(&vec![LoadedFile {
        index: 0,
        name: String::from("p.png"),
        bytes: Some(bytes),
    }]);
    assert_eq!(batch.len(), 1);
    assert_eq!(batch[0].width, 2);
    assert_eq!(batch[0].height, 2);
    assert_eq!(batch[0].pixels, pixels);
    assert_eq!(batch[0].name, "p.png");
    assert_eq!(batch[0].index, 0);
}

/// Preparing an image resamples it to the requested resolution: the
/// row has the target element count, and a same-size target keeps
/// the pixels, so the row equals the image's own bytes reordered and
/// normalized.
#[test]
fn prepare_resamples_to_target() {
    let pixels: Vec<u8> = (0..12u8).collect();
    let bytes = png_of(&pixels, 2, 2);
    let batch = assemble_batch(&vec![LoadedFile {
        index: 0,
        name: String::from("p.png"),
        bytes: Some(bytes),
    }]);
    let grown = prepare_image(&batch[0], 3, 3);
    assert_eq!(grown.len(), 3 * 3 * 3);
    let same = prepare_image(&batch[0], 2, 2);
    assert_eq!(same, normalize_scalar(&to_chw(&pixels, 2, 2)));
}

/// Unreadable files and undecodable bytes are dropped; the
/// survivors keep their order and their discovery indices.
#[test]
fn assembly_drops_failures_in_order() {
    let good_a = png_of(&[9, 9, 9], 1, 1);
    let good_b = png_of(&[5, 5, 5], 1, 1);
    let files = vec![
        LoadedFile { index: 3, name: String::from("a.png"), bytes: Some(good_a) },
        LoadedFile { index: 4, name: String::from("bad.png"), bytes: Some(vec![0, 1, 2]) },
        LoadedFile { index: 5, name: String::from("unread.png"), bytes: None },
        LoadedFile { index: 6, name: String::from("b.png"), bytes: Some(good_b) },
    ];
    let batch = assemble_batch(&files);
    assert_eq!(batch.len(), 2);
    assert_eq!(batch[0].index, 3);
    assert_eq!(batch[0].name, "a.png");
    assert_eq!(batch[1].index, 6);
    assert_eq!(batch[1].name, "b.png");
}
