//! The batch tensor's two allocation paths, and per-image row
//! preparation through decode, resize and normalization.

use embed_pipeline::imaging::{assemble_batch, LoadedFile};
use embed_pipeline::tensor::{flatten_rows, prepare_image, TensorBuffer};

fn png_bytes(w: u32, h: u32, fill: u8) -> Vec<u8> {
    let pixels: Vec<u8> = (0..w * h * 3).map(|k| fill.wrapping_add(k as u8)).collect();
    let img = image::RgbImage::from_raw(w, h, pixels).unwrap();
    let mut buf: Vec<u8> = Vec::new();
    let mut cursor = std::io::Cursor::new(&mut buf);
    image::DynamicImage::ImageRgb8(img)
        .write_to(&mut cursor, image::ImageFormat::Png)
        .unwrap();
    buf
}

/// Buffer-reuse equivalence: for one set of rows, the contents the
/// shared buffer's prefix holds after a fill equal the fresh
/// allocation's contents element for element.
#[test]
fn shared_and_fresh_paths_agree() {
    let rows: Vec<Vec<u32>> = vec![
        vec![1f32.to_bits(), 2f32.to_bits(), 3f32.to_bits()],
        vec![4f32.to_bits(), 5f32.to_bits(), 6f32.to_bits()],
    ];
    let mut buf = TensorBuffer::new(4, 3);
    buf.fill(&rows);
    assert_eq!(buf.used_rows(), 2);
    let fresh = flatten_rows(&rows);
    assert_eq!(&buf.data()[..6], &fresh[..]);
    assert_eq!(fresh.len(), 6);
}

/// Refilling the shared buffer with a smaller batch rewrites only
/// the new prefix; its contents still match the fresh path for the
/// new rows.
#[test]
fn refill_overwrites_prefix() {
    let first: Vec<Vec<u32>> = vec![vec![9, 9], vec![8, 8], vec![7, 7]];
    let second: Vec<Vec<u32>> = vec![vec![1, 2]];
    let mut buf = TensorBuffer::new(3, 2);
    buf.fill(&first);
    buf.fill(&second);
    assert_eq!(buf.used_rows(), 1);
    assert_eq!(&buf.data()[..2], &flatten_rows(&second)[..]);
    // Beyond the new prefix the earlier batch's elements remain.
    assert_eq!(&buf.data()[2..6], &[8, 8, 7, 7]);
}

/// A decoded image prepares into one row of the model's input
/// element count, identically however often it is prepared.
#[test]
fn prepare_image_row_shape() {
    let files = vec![LoadedFile {
        index: 0,
        name: String::from("t.png"),
        bytes: Some(png_bytes(5, 3, 17)),
    }];
    let batch = assemble_batch(&files);
    assert_eq!(batch.len(), 1);
    let row = prepare_image(&batch[0], 4, 4);
    assert_eq!(row.len(), 3 * 4 * 4);
    let row_again = prepare_image(&batch[0], 4, 4);
    assert_eq!(row, row_again);
}

/// An oversize batch goes through the fresh path and leaves the
/// shared buffer untouched.
#[test]
fn oversize_batch_takes_fresh_path() {
    let rows: Vec<Vec<u32>> = vec![vec![1], vec![2], vec![3]];
    let buf = TensorBuffer::new(2, 1);
    // Capacity two rows: the three-row batch must not use the buffer.
    assert!(rows.len() > buf.capacity_rows());
    let fresh = flatten_rows(&rows);
    assert_eq!(fresh, vec![1, 2, 3]);
    assert_eq!(buf.used_rows(), 0);
}
