//! The batch tensor and its two allocation paths.
//!
//! One capacity-sized buffer is allocated up front and reused for
//! every batch that fits; a batch larger than the capacity gets a
//! fresh allocation instead.  Which path runs is invisible in the
//! contents: both leave exactly the concatenation of the batch's
//! tensor rows, element for element.

use vstd::prelude::*;

use crate::config::PipelineConfig;
use crate::imaging::{resize_rgb, resized_of, DecodedImage};
use crate::preprocess::{normalize_scalar, row_of};

verus! {

/// The concatenation of a batch's tensor rows.
pub open spec fn flat_of(rows: Seq<Seq<u32>>) -> Seq<u32>
    decreases rows.len(),
{
    if rows.len() == 0 {
        Seq::empty()
    } else {
        flat_of(rows.drop_last()) + rows.last()
    }
}

/// The tensor row an image contributes: the image resampled to the
/// model's input resolution, reordered to planar layout, normalized.
pub open spec fn spec_image_row(img: DecodedImage, dw: u32, dh: u32) -> Seq<u32> {
    row_of(resized_of(img.pixels@, img.width, img.height, dw, dh), dw as int, dh as int)
}

/// Resamples, reorders and normalizes one image into its tensor row.
pub fn prepare_image(img: &DecodedImage, dw: u32, dh: u32) -> (r: Vec<u32>)
    requires
        img.wf(),
        dw >= 1,
        dh >= 1,
        3 * dw * dh <= usize::MAX,
    ensures
        r@ == spec_image_row(*img, dw, dh),
        r@.len() == 3 * dw * dh,
{
    let resized: Vec<u8> = resize_rgb(&img.pixels, img.width, img.height, dw, dh);
    proof {
        assert(3 * (dw as int * dh as int) == 3 * dw * dh && dw as int * dh as int >= 1)
            by (nonlinear_arith)
            requires
                dw >= 1,
                dh >= 1,
        ;
    }
    let chw: Vec<u8> = crate::preprocess::to_chw(&resized, dw as usize, dh as usize);
    normalize_scalar(&chw)
}

/// Prepares every surviving image of a batch into its tensor row.
/// Row `i` is exactly image `i`'s row; each row has the model's input
/// element count.
pub fn prepare_rows(batch: &Vec<DecodedImage>, cfg: &PipelineConfig) -> (r: Vec<Vec<u32>>)
    requires
        cfg.valid(),
        forall|i: int| 0 <= i < batch@.len() ==> (#[trigger] batch@[i]).wf(),
    ensures
        r@.len() == batch@.len(),
        forall|i: int|
            0 <= i < r@.len() ==> (#[trigger] r@[i])@ == spec_image_row(
                batch@[i],
                cfg.input_width,
                cfg.input_height,
            ),
        forall|i: int| 0 <= i < r@.len() ==> (#[trigger] r@[i])@.len() == cfg.spec_row_len(),
{
    let mut r: Vec<Vec<u32>> = Vec::new();
    let n: usize = batch.len();
    let mut i: usize = 0;
    while i < n
        invariant
            cfg.valid(),
            n == batch@.len(),
            i <= n,
            r@.len() == i,
            forall|j: int| 0 <= j < batch@.len() ==> (#[trigger] batch@[j]).wf(),
            forall|j: int|
                0 <= j < i ==> (#[trigger] r@[j])@ == spec_image_row(
                    batch@[j],
                    cfg.input_width,
                    cfg.input_height,
                ),
            forall|j: int| 0 <= j < i ==> (#[trigger] r@[j])@.len() == cfg.spec_row_len(),
        decreases n - i,
    {
        let row: Vec<u32> = prepare_image(&batch[i], cfg.input_width, cfg.input_height);
        r.push(row);
        i += 1;
    }
    r
}

/// The reusable batch tensor: a buffer sized once for a full batch,
/// whose prefix is rewritten in place by every batch that fits.
pub struct TensorBuffer {
    data: Vec<u32>,
    capacity_rows: usize,
    row_len: usize,
    used_rows: usize,
}

impl TensorBuffer {
    /// The buffer holds exactly capacity-many rows and the used
    /// prefix never exceeds the capacity.
    pub closed spec fn wf(&self) -> bool {
        &&& self.data@.len() == self.capacity_rows * self.row_len
        &&& self.used_rows <= self.capacity_rows
    }

    /// How many rows fit without a fresh allocation.
    pub closed spec fn spec_capacity_rows(&self) -> int {
        self.capacity_rows as int
    }

    /// Elements per row.
    pub closed spec fn spec_row_len(&self) -> int {
        self.row_len as int
    }

    /// Rows the last filled batch wrote.
    pub closed spec fn spec_used_rows(&self) -> int {
        self.used_rows as int
    }

    /// The buffer's elements.
    pub closed spec fn spec_data(&self) -> Seq<u32> {
        self.data@
    }

    /// Allocates the buffer once, zero-filled, for `capacity_rows`
    /// rows of `row_len` elements each.
    pub fn new(capacity_rows: usize, row_len: usize) -> (r: TensorBuffer)
        requires
            capacity_rows * row_len <= usize::MAX,
        ensures
            r.wf(),
            r.spec_capacity_rows() == capacity_rows,
            r.spec_row_len() == row_len,
            r.spec_used_rows() == 0,
    {
        let total: usize = capacity_rows * row_len;
        let mut data: Vec<u32> = Vec::new();
        let mut k: usize = 0;
        while k < total
            invariant
                k <= total,
                data@.len() == k,
            decreases total - k,
        {
            data.push(0);
            k += 1;
        }
        TensorBuffer { data, capacity_rows, row_len, used_rows: 0 }
    }

    /// How many rows fit without a fresh allocation.
    pub fn capacity_rows(&self) -> (r: usize)
        ensures
            r == self.spec_capacity_rows(),
    {
        self.capacity_rows
    }

    /// Rows the last filled batch wrote.
    pub fn used_rows(&self) -> (r: usize)
        ensures
            r == self.spec_used_rows(),
    {
        self.used_rows
    }

    /// The buffer's elements; the filled batch is the prefix of
    /// `used_rows * row_len` elements.
    pub fn data(&self) -> (r: &Vec<u32>)
        ensures
            r@ == self.spec_data(),
    {
        &self.data
    }

    /// The shared-buffer path: writes a batch that fits the capacity
    /// into the buffer's prefix, row by row.  The prefix afterwards
    /// is exactly the concatenation of the rows — identical to what
    /// the fresh-allocation path builds — and the elements beyond it
    /// are untouched.
    pub fn fill(&mut self, rows: &Vec<Vec<u32>>)
        requires
            old(self).wf(),
            rows@.len() <= old(self).spec_capacity_rows(),
            forall|i: int|
                0 <= i < rows@.len() ==> (#[trigger] rows@[i])@.len() == old(self).spec_row_len(),
        ensures
            final(self).wf(),
            final(self).spec_capacity_rows() == old(self).spec_capacity_rows(),
            final(self).spec_row_len() == old(self).spec_row_len(),
            final(self).spec_used_rows() == rows@.len(),
            final(self).spec_data().take(rows@.len() * old(self).spec_row_len()) == flat_of(
                rows@.map_values(|v: Vec<u32>| v@),
            ),
            final(self).spec_data().skip(rows@.len() * old(self).spec_row_len()) == old(
                self,
            ).spec_data().skip(rows@.len() * old(self).spec_row_len()),
    {
        let row_len: usize = self.row_len;
        let n: usize = rows.len();
        let total: usize = self.data.len();
        proof {
            assert(n * row_len <= self.capacity_rows * row_len) by (nonlinear_arith)
                requires
                    n <= self.capacity_rows,
                    row_len >= 0,
            ;
        }
        let mut i: usize = 0;
        while i < n
            invariant
                self.wf(),
                self.capacity_rows == old(self).capacity_rows,
                self.row_len == old(self).row_len,
                self.used_rows == old(self).used_rows,
                row_len == self.row_len,
                n == rows@.len(),
                n <= self.capacity_rows,
                n * row_len <= total,
                self.data@.len() == total,
                i <= n,
                forall|j: int|
                    0 <= j < n ==> (#[trigger] rows@[j])@.len() == row_len,
                self.data@.take(i * row_len as int) == flat_of(
                    rows@.take(i as int).map_values(|v: Vec<u32>| v@),
                ),
                self.data@.skip(n * row_len as int) == old(self).data@.skip(n * row_len as int),
                self.data@.len() == old(self).data@.len(),
            decreases n - i,
        {
            proof {
                assert((i + 1) * row_len == i * row_len + row_len && i * row_len >= 0 && (i + 1)
                    * row_len <= n * row_len) by (nonlinear_arith)
                    requires
                        0 <= i < n,
                        row_len >= 0,
                ;
            }
            let base: usize = i * row_len;
            let ghost before = self.data@;
            let row: &Vec<u32> = &rows[i];
            let mut k: usize = 0;
            while k < row_len
                invariant
                    self.wf(),
                    self.capacity_rows == old(self).capacity_rows,
                    self.row_len == old(self).row_len,
                    self.used_rows == old(self).used_rows,
                    row_len == self.row_len,
                    k <= row_len,
                    base == i * row_len,
                    0 <= i < n,
                    base + row_len <= n * row_len,
                    n * row_len <= total,
                    self.data@.len() == total,
                    row@.len() == row_len,
                    row@ == rows@[i as int]@,
                    self.data@.len() == before.len(),
                    forall|j: int| 0 <= j < base ==> self.data@[j] == before[j],
                    forall|j: int| 0 <= j < k ==> self.data@[base + j] == row@[j],
                    forall|j: int|
                        base + row_len <= j < self.data@.len() ==> self.data@[j] == before[j],
                decreases row_len - k,
            {
                let v: u32 = row[k];
                self.data.set(base + k, v);
                k += 1;
            }
            proof {
                assert(rows@.take(i + 1).drop_last() =~= rows@.take(i as int));
                let flat_prev = flat_of(rows@.take(i as int).map_values(|v: Vec<u32>| v@));
                let flat_now = flat_of(rows@.take(i + 1).map_values(|v: Vec<u32>| v@));
                assert(rows@.take(i + 1).map_values(|v: Vec<u32>| v@).drop_last() =~= rows@.take(
                    i as int,
                ).map_values(|v: Vec<u32>| v@));
                assert(flat_now == flat_prev + rows@[i as int]@);
                assert(flat_prev.len() == i * row_len) by {
                    lemma_flat_len(rows@.take(i as int).map_values(|v: Vec<u32>| v@), row_len as int);
                };
                assert(self.data@.take((i + 1) * row_len as int) =~= flat_now);
                assert(self.data@.skip(n * row_len as int) =~= old(self).data@.skip(
                    n * row_len as int,
                ));
            }
            i += 1;
        }
        self.used_rows = n;
        proof {
            assert(rows@.take(n as int) =~= rows@);
        }
    }
}

/// Rows of one length concatenate to a sequence of predictable
/// length.
pub proof fn lemma_flat_len(rows: Seq<Seq<u32>>, row_len: int)
    requires
        forall|i: int| 0 <= i < rows.len() ==> (#[trigger] rows[i]).len() == row_len,
    ensures
        flat_of(rows).len() == rows.len() * row_len,
    decreases rows.len(),
{
    if rows.len() == 0 {
        assert(rows.len() * row_len == 0) by (nonlinear_arith)
            requires
                rows.len() == 0,
        ;
    } else {
        lemma_flat_len(rows.drop_last(), row_len);
        assert(rows.len() * row_len == (rows.len() - 1) * row_len + row_len)
            by (nonlinear_arith);
    }
}

/// The fresh-allocation path: builds the same concatenation in a new
/// buffer, for a batch larger than the preallocated capacity.
pub fn flatten_rows(rows: &Vec<Vec<u32>>) -> (r: Vec<u32>)
    ensures
        r@ == flat_of(rows@.map_values(|v: Vec<u32>| v@)),
{
    let mut r: Vec<u32> = Vec::new();
    let n: usize = rows.len();
    let mut i: usize = 0;
    while i < n
        invariant
            n == rows@.len(),
            i <= n,
            r@ == flat_of(rows@.take(i as int).map_values(|v: Vec<u32>| v@)),
        decreases n - i,
    {
        let row: &Vec<u32> = &rows[i];
        let mut k: usize = 0;
        let m: usize = row.len();
        let ghost prev = r@;
        while k < m
            invariant
                m == row@.len(),
                k <= m,
                r@ == prev + row@.take(k as int),
            decreases m - k,
        {
            let v: u32 = row[k];
            r.push(v);
            proof {
                assert(prev + row@.take(k + 1) =~= (prev + row@.take(k as int)).push(row@[k as int]));
            }
            k += 1;
        }
        proof {
            assert(row@.take(m as int) =~= row@);
            assert(rows@.take(i + 1).map_values(|v: Vec<u32>| v@).drop_last() =~= rows@.take(
                i as int,
            ).map_values(|v: Vec<u32>| v@));
            assert(rows@.take(i + 1).map_values(|v: Vec<u32>| v@).last() == rows@[i as int]@);
        }
        i += 1;
    }
    proof {
        assert(rows@.take(n as int) =~= rows@);
    }
    r
}

/// Buffer-reuse equivalence: for one batch of prepared rows, the
/// shared-buffer path's filled prefix and the fresh-allocation path's
/// buffer hold the same elements.  Each path's contract pins its
/// contents to [`flat_of`] of the same rows, so the two are one
/// value.
pub proof fn lemma_buffer_paths_agree(
    rows: Seq<Seq<u32>>,
    shared_prefix: Seq<u32>,
    fresh: Seq<u32>,
)
    requires
        shared_prefix == flat_of(rows),
        fresh == flat_of(rows),
    ensures
        shared_prefix == fresh,
{
}

} // verus!
