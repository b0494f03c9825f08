//! Per-image preprocessing: channel reordering and pixel
//! normalization.
//!
//! A decoded image arrives as interleaved rows of red, green and blue
//! bytes.  Preprocessing reorders them into planar channel-major
//! layout and maps every byte through the model's affine transform —
//! the value divided by half the byte range, minus one — producing
//! the 32-bit float bit patterns that fill one tensor row.
//!
//! Two normalization paths exist: a scalar path that computes the
//! transform per byte, and a precomputed-table path that looks each
//! byte up in a 256-entry table.  Their outputs are identical bit for
//! bit; the table is a performance choice, never a behavioral one.

use vstd::prelude::*;

use crate::fbits::{div_bits, fdiv, ffrom_u32, float_of_u32, fsub, sub_bits};

verus! {

/// Bit pattern of 127.5, half the byte range.
pub const HALF_RANGE_BITS: u32 = 0x42FF_0000;

/// Bit pattern of 1.
pub const ONE_BITS: u32 = 0x3F80_0000;

/// The normalized value of one pixel byte: the byte's value divided
/// by half the byte range, minus one, as 32-bit float bits.
pub open spec fn pixel_norm(v: u8) -> u32 {
    sub_bits(div_bits(float_of_u32(v as u32), HALF_RANGE_BITS), ONE_BITS)
}

/// A byte sequence mapped through [`pixel_norm`].
pub open spec fn normalized_of(p: Seq<u8>) -> Seq<u32> {
    p.map_values(|v: u8| pixel_norm(v))
}

/// Interleaved rows of a three-channel image, reordered to planar
/// channel-major layout: output position `c * w * h + y * w + x`
/// holds input byte `3 * (y * w + x) + c`.
pub open spec fn chw_of(p: Seq<u8>, w: int, h: int) -> Seq<u8> {
    Seq::new((3 * w * h) as nat, |k: int| p[3 * (k % (w * h)) + k / (w * h)])
}

/// The tensor row of an image already resized to `w` by `h`:
/// its bytes in planar layout, normalized.
pub open spec fn row_of(resized: Seq<u8>, w: int, h: int) -> Seq<u32> {
    normalized_of(chw_of(resized, w, h))
}

/// Normalizes a single pixel byte on the scalar path.
pub fn normalize_pixel(v: u8) -> (r: u32)
    ensures
        r == pixel_norm(v),
{
    fsub(fdiv(ffrom_u32(v as u32), HALF_RANGE_BITS), ONE_BITS)
}

/// The scalar normalization path: every byte through the transform,
/// one at a time.
pub fn normalize_scalar(pixels: &Vec<u8>) -> (r: Vec<u32>)
    ensures
        r@ == normalized_of(pixels@),
{
    let mut r: Vec<u32> = Vec::new();
    let n: usize = pixels.len();
    let mut i: usize = 0;
    while i < n
        invariant
            n == pixels@.len(),
            i <= n,
            r@.len() == i,
            forall|j: int| 0 <= j < i ==> r@[j] == pixel_norm(pixels@[j]),
        decreases n - i,
    {
        let v: u32 = normalize_pixel(pixels[i]);
        r.push(v);
        i += 1;
    }
    proof {
        assert(r@ =~= normalized_of(pixels@));
    }
    r
}

/// The table used by the precomputed normalization path: entry `v`
/// holds the normalized value of byte `v`.
pub struct NormTable {
    table: Vec<u32>,
}

impl NormTable {
    /// The table is complete and agrees with [`pixel_norm`]
    /// everywhere.
    pub closed spec fn wf(&self) -> bool {
        &&& self.table@.len() == 256
        &&& forall|v: int| 0 <= v < 256 ==> self.table@[v] == pixel_norm(v as u8)
    }

    /// Builds the table by running the scalar transform once per
    /// possible byte.
    pub fn new() -> (r: NormTable)
        ensures
            r.wf(),
    {
        let mut table: Vec<u32> = Vec::new();
        let mut v: usize = 0;
        while v < 256
            invariant
                v <= 256,
                table@.len() == v,
                forall|j: int| 0 <= j < v ==> table@[j] == pixel_norm(j as u8),
            decreases 256 - v,
        {
            let e: u32 = normalize_pixel(v as u8);
            table.push(e);
            v += 1;
        }
        NormTable { table }
    }

    /// The precomputed normalization path: every byte looked up in
    /// the table.  Bit-identical to [`normalize_scalar`].
    pub fn normalize(&self, pixels: &Vec<u8>) -> (r: Vec<u32>)
        requires
            self.wf(),
        ensures
            r@ == normalized_of(pixels@),
    {
        let mut r: Vec<u32> = Vec::new();
        let n: usize = pixels.len();
        let mut i: usize = 0;
        while i < n
            invariant
                self.wf(),
                n == pixels@.len(),
                i <= n,
                r@.len() == i,
                forall|j: int| 0 <= j < i ==> r@[j] == pixel_norm(pixels@[j]),
            decreases n - i,
        {
            let b: u8 = pixels[i];
            let v: u32 = self.table[b as usize];
            r.push(v);
            i += 1;
        }
        proof {
            assert(r@ =~= normalized_of(pixels@));
        }
        r
    }
}

/// Normalization equivalence: on the same input bytes, the scalar
/// path and the precomputed-table path produce identical output, bit
/// for bit.  Each path's contract pins its output to
/// [`normalized_of`], so the two outputs are one value.
pub proof fn lemma_normalization_paths_agree(
    pixels: Seq<u8>,
    scalar_out: Seq<u32>,
    table_out: Seq<u32>,
)
    requires
        scalar_out == normalized_of(pixels),
        table_out == normalized_of(pixels),
    ensures
        scalar_out == table_out,
{
}

/// Reorders interleaved three-channel rows into planar channel-major
/// layout, the layout of one tensor row.
pub fn to_chw(pixels: &Vec<u8>, w: usize, h: usize) -> (r: Vec<u8>)
    requires
        w >= 1,
        h >= 1,
        pixels@.len() == 3 * w * h,
    ensures
        r@ == chw_of(pixels@, w as int, h as int),
{
    let n: usize = pixels.len();
    proof {
        assert(w * h >= 1 && w * h <= 3 * (w * h) && 3 * (w * h) == 3 * w * h)
            by (nonlinear_arith)
            requires
                w >= 1,
                h >= 1,
        ;
    }
    let hw: usize = w * h;
    let mut r: Vec<u8> = Vec::new();
    let mut k: usize = 0;
    while k < n
        invariant
            hw == w as int * h as int,
            n == 3 * hw,
            n == pixels@.len(),
            hw >= 1,
            k <= n,
            r@.len() == k,
            forall|j: int| 0 <= j < k ==> r@[j] == pixels@[3 * (j % (hw as int)) + j / (hw as int)],
        decreases n - k,
    {
        let c: usize = k / hw;
        let rem: usize = k % hw;
        proof {
            assert(c < 3 && 3 * rem + c < n) by (nonlinear_arith)
                requires
                    hw >= 1,
                    n == 3 * hw,
                    k < n,
                    c == k as int / hw as int,
                    rem == k as int % hw as int,
            ;
        }
        let b: u8 = pixels[3 * rem + c];
        r.push(b);
        k += 1;
    }
    proof {
        assert(r@ =~= chw_of(pixels@, w as int, h as int));
    }
    r
}

} // verus!
