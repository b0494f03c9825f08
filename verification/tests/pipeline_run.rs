//! A full run through the coordinator: discovery order, batching,
//! decode failures, identifier assignment and count verification.

use embed_pipeline::batching::chunk_bounds;
use embed_pipeline::imaging::{assemble_batch, LoadedFile};
use embed_pipeline::pipeline::{Coordinator, CountCheck, Phase};
use embed_pipeline::pooling::pool_and_normalize;

fn png_bytes(w: u32, h: u32, fill: u8) -> Vec<u8> {
    let pixels: Vec<u8> = (0..w * h * 3).map(|k| fill.wrapping_add(k as u8)).collect();
    let img = image::RgbImage::from_raw(w, h, pixels).unwrap();
    let mut buf: Vec<u8> = Vec::new();
    let mut cursor = std::io::Cursor::new(&mut buf);
    image::DynamicImage::ImageRgb8(img)
        .write_to(&mut cursor, image::ImageFormat::Png)
        .unwrap();
    buf
}

fn raw_output_for(rows: usize, seq_len: usize, dim: usize) -> Vec<u32> {
    let mut raw: Vec<u32> = Vec::new();
    for k in 0..rows * seq_len * dim {
        raw.push(((k + 1) as f32).to_bits());
    }
    raw
}

/// Three decodable images and one corrupt file, batch capacity 2,
/// pre-run store count 10, vector dimension 4: exactly three records,
/// identifiers 10, 11 and 12, and the corrupt file consumes no
/// identifier.
#[test]
fn three_records_from_four_files() {
    let dim: usize = 4;
    let seq_len: usize = 2;
    let files: Vec<LoadedFile> = vec![
        LoadedFile { index: 0, name: String::from("a.jpg"), bytes: Some(png_bytes(2, 2, 0)) },
        LoadedFile { index: 1, name: String::from("broken.jpg"), bytes: Some(vec![7, 7, 7, 7]) },
        LoadedFile { index: 2, name: String::from("c.png"), bytes: Some(png_bytes(3, 1, 9)) },
        LoadedFile { index: 3, name: String::from("d.jpeg"), bytes: Some(png_bytes(1, 1, 40)) },
    ];
    let chunks = chunk_bounds(files.len(), 2);
    assert_eq!(chunks, vec![(0, 2), (2, 4)]);

    let mut c = Coordinator::new(dim, 2, chunks.len(), 10);
    let mut all_ids: Vec<u64> = Vec::new();
    let mut store_count: u64 = 10;

    for (start, end) in chunks {
        assert_eq!(c.phase, Phase::Loading);
        let slice: Vec<LoadedFile> = files[start..end]
            .iter()
            .map(|f| LoadedFile {
                index: f.index,
                name: f.name.clone(),
                bytes: f.bytes.clone(),
            })
            .collect();
        let batch = assemble_batch(&slice);
        let survivors = batch.len();
        c.on_batch(&batch);
        if survivors == 0 {
            continue;
        }
        assert_eq!(c.phase, Phase::Inferring);
        let raw = raw_output_for(survivors, seq_len, dim);
        let (embeddings, _norms) = pool_and_normalize(&raw, survivors, seq_len, dim);
        let records = c.on_embeddings(&embeddings).unwrap();
        assert_eq!(records.len(), survivors);
        for r in &records {
            assert_eq!(r.vector.len(), dim);
            all_ids.push(r.id);
        }
        store_count += records.len() as u64;
        c.on_write_ok();
        assert_eq!(c.phase, Phase::Verifying);
        assert_eq!(c.on_count_observed(store_count), CountCheck::Consistent);
    }

    assert_eq!(c.phase, Phase::Finished);
    assert_eq!(all_ids, vec![10, 11, 12]);
    assert_eq!(c.decoded_total, 3);
    assert_eq!(c.mismatched_total, 0);
    assert_eq!(c.written_total, 3);
    assert_eq!(c.next_id, 13);
}

/// A dimension mismatch drops the one record, not the batch, and
/// consumes no identifier; the written count stays decoded minus
/// mismatched.
#[test]
fn mismatched_embedding_is_dropped() {
    let files: Vec<LoadedFile> = vec![
        LoadedFile { index: 0, name: String::from("a.png"), bytes: Some(png_bytes(2, 1, 3)) },
        LoadedFile { index: 1, name: String::from("b.png"), bytes: Some(png_bytes(2, 1, 5)) },
    ];
    let batch = assemble_batch(&files);
    assert_eq!(batch.len(), 2);

    let mut c = Coordinator::new(3, 2, 1, 100);
    c.on_batch(&batch);
    let embeddings: Vec<Vec<u32>> = vec![
        vec![1f32.to_bits(), 0, 0, 0], // wrong length: dropped
        vec![1f32.to_bits(), 0, 0],
    ];
    let records = c.on_embeddings(&embeddings).unwrap();
    assert_eq!(records.len(), 1);
    assert_eq!(records[0].id, 100);
    assert_eq!(records[0].filename, "b.png");
    c.on_write_ok();
    assert_eq!(c.on_count_observed(101), CountCheck::Consistent);
    assert_eq!(c.phase, Phase::Finished);
    assert_eq!(c.decoded_total, 2);
    assert_eq!(c.mismatched_total, 1);
    assert_eq!(c.written_total, 1);
}

/// Malformed model output — a row count that differs from the batch —
/// is fatal for the run.
#[test]
fn wrong_row_count_is_fatal() {
    let files: Vec<LoadedFile> = vec![LoadedFile {
        index: 0,
        name: String::from("a.png"),
        bytes: Some(png_bytes(1, 1, 0)),
    }];
    let batch = assemble_batch(&files);
    let mut c = Coordinator::new(2, 4, 1, 0);
    c.on_batch(&batch);
    let embeddings: Vec<Vec<u32>> = vec![vec![0, 0], vec![0, 0]];
    let e = c.on_embeddings(&embeddings).unwrap_err();
    assert_eq!(e, embed_pipeline::errors::PipelineError::Inference);
    assert_eq!(c.phase, Phase::Failed);
    assert_eq!(c.next_id, 0);
}

/// A batch whose files all fail to decode is skipped without error
/// and without consuming an identifier.
#[test]
fn empty_batch_is_skipped() {
    let files: Vec<LoadedFile> = vec![
        LoadedFile { index: 0, name: String::from("x.jpg"), bytes: None },
        LoadedFile { index: 1, name: String::from("y.jpg"), bytes: Some(vec![1, 2, 3]) },
    ];
    let batch = assemble_batch(&files);
    assert_eq!(batch.len(), 0);
    let mut c = Coordinator::new(4, 2, 1, 55);
    c.on_batch(&batch);
    assert_eq!(c.phase, Phase::Finished);
    assert_eq!(c.next_id, 55);
    assert_eq!(c.decoded_total, 0);
    assert_eq!(c.written_total, 0);
}

/// A post-write count mismatch is a warning, never fatal: the run
/// advances to the next batch.
#[test]
fn count_mismatch_is_nonfatal() {
    let files: Vec<LoadedFile> = vec![LoadedFile {
        index: 0,
        name: String::from("a.png"),
        bytes: Some(png_bytes(1, 1, 1)),
    }];
    let batch = assemble_batch(&files);
    let mut c = Coordinator::new(1, 1, 2, 7);
    c.on_batch(&batch);
    let records = c.on_embeddings(&vec![vec![2f32.to_bits()]]).unwrap();
    assert_eq!(records[0].id, 7);
    c.on_write_ok();
    // The store reports a stale count: warning only, the run goes on.
    assert_eq!(c.on_count_observed(7), CountCheck::Warning);
    assert_eq!(c.phase, Phase::Loading);
}

/// A write rejection is fatal and keeps already-written batches.
#[test]
fn write_error_is_fatal() {
    let files: Vec<LoadedFile> = vec![LoadedFile {
        index: 0,
        name: String::from("a.png"),
        bytes: Some(png_bytes(1, 1, 1)),
    }];
    let batch = assemble_batch(&files);
    let mut c = Coordinator::new(1, 1, 1, 0);
    c.on_batch(&batch);
    let _records = c.on_embeddings(&vec![vec![1f32.to_bits()]]).unwrap();
    let e = c.on_write_error();
    assert_eq!(e, embed_pipeline::errors::PipelineError::Write);
    assert_eq!(c.phase, Phase::Failed);
}

/// No batch at all: the run is finished before it starts, with an
/// empty ledger.
#[test]
fn empty_run_finishes_immediately() {
    let c = Coordinator::new(8, 4, 0, 42);
    assert_eq!(c.phase, Phase::Finished);
    assert_eq!(c.next_id, 42);
    assert_eq!(c.written_total, 0);
}
