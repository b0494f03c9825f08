//! Pooling and normalization of raw model output.
//!
//! The model returns, per batch, a buffer of shape rows by sequence
//! length by dimension.  Each row is pooled by averaging over the
//! sequence axis, then divided by its Euclidean norm.  A zero
//! magnitude — the degenerate case whose division would be undefined
//! — is guarded explicitly and yields a defined all-zero vector.

use vstd::prelude::*;

use crate::fbits::{
    add_bits, div_bits, fadd, fdiv, ffrom_u32, float_of_u32, fmul, mul_bits, sqrt_below,
    INFINITY_BITS,
};

verus! {

/// Left-fold IEEE sum of a sequence, starting from positive zero.
pub open spec fn fsum(s: Seq<u32>) -> u32
    decreases s.len(),
{
    if s.len() == 0 {
        0u32
    } else {
        add_bits(fsum(s.drop_last()), s.last())
    }
}

/// Left-fold IEEE sum of the squares of a sequence, starting from
/// positive zero.
pub open spec fn sum_squares(s: Seq<u32>) -> u32
    decreases s.len(),
{
    if s.len() == 0 {
        0u32
    } else {
        add_bits(sum_squares(s.drop_last()), mul_bits(s.last(), s.last()))
    }
}

/// The sequence-axis values of one coordinate of one row in the raw
/// model output.
pub open spec fn token_seq(raw: Seq<u32>, seq_len: int, dim: int, i: int, d: int) -> Seq<u32> {
    Seq::new(seq_len as nat, |s: int| raw[i * seq_len * dim + s * dim + d])
}

/// One pooled coordinate: the mean over the sequence axis — the sum
/// of the coordinate's values divided by the sequence length.
pub open spec fn pooled_at(raw: Seq<u32>, seq_len: int, dim: int, i: int, d: int) -> u32 {
    div_bits(fsum(token_seq(raw, seq_len, dim, i, d)), float_of_u32(seq_len as u32))
}

/// One row of the pooled output.
pub open spec fn pooled_row(raw: Seq<u32>, seq_len: int, dim: int, i: int) -> Seq<u32> {
    Seq::new(dim as nat, |d: int| pooled_at(raw, seq_len, dim, i, d))
}

/// A magnitude on which normalization must not divide: zero, or not
/// a positive finite value.
pub open spec fn degenerate_magnitude(ssq: u32) -> bool {
    ssq == 0 || ssq >= INFINITY_BITS
}

/// Pools raw model output over the sequence axis: row `i`, coordinate
/// `d` of the result is the mean of that coordinate's `seq_len`
/// values.
pub fn mean_pool(raw: &Vec<u32>, rows: usize, seq_len: usize, dim: usize) -> (r: Vec<Vec<u32>>)
    requires
        raw@.len() == rows * seq_len * dim,
        seq_len >= 1,
        seq_len <= u32::MAX,
        dim >= 1,
    ensures
        r@.len() == rows,
        forall|i: int|
            0 <= i < rows ==> (#[trigger] r@[i])@ == pooled_row(
                raw@,
                seq_len as int,
                dim as int,
                i,
            ),
{
    let n: usize = raw.len();
    let divisor: u32 = ffrom_u32(seq_len as u32);
    let mut r: Vec<Vec<u32>> = Vec::new();
    let mut i: usize = 0;
    while i < rows
        invariant
            n == raw@.len(),
            n == rows * seq_len * dim,
            seq_len >= 1,
            seq_len <= u32::MAX,
            dim >= 1,
            divisor == float_of_u32(seq_len as u32),
            i <= rows,
            r@.len() == i,
            forall|j: int|
                0 <= j < i ==> (#[trigger] r@[j])@ == pooled_row(
                    raw@,
                    seq_len as int,
                    dim as int,
                    j,
                ),
        decreases rows - i,
    {
        proof {
            assert(i * seq_len * dim + seq_len * dim <= rows * seq_len * dim && i * seq_len * dim
                >= 0 && seq_len * dim >= 0 && (i * seq_len) * dim == i * seq_len * dim && i
                * seq_len <= rows * seq_len * dim) by (nonlinear_arith)
                requires
                    0 <= i < rows,
                    seq_len >= 1,
                    dim >= 1,
            ;
        }
        let base: usize = (i * seq_len) * dim;
        let mut row: Vec<u32> = Vec::new();
        let mut d: usize = 0;
        while d < dim
            invariant
                n == raw@.len(),
                n == rows * seq_len * dim,
                seq_len >= 1,
                seq_len <= u32::MAX,
                dim >= 1,
                0 <= i < rows,
                divisor == float_of_u32(seq_len as u32),
                base == i * seq_len * dim,
                base + seq_len * dim <= n,
                d <= dim,
                row@.len() == d,
                forall|e: int|
                    0 <= e < d ==> row@[e] == pooled_at(raw@, seq_len as int, dim as int, i as int, e),
            decreases dim - d,
        {
            let ghost toks = token_seq(raw@, seq_len as int, dim as int, i as int, d as int);
            let mut acc: u32 = 0;
            let mut s: usize = 0;
            proof {
                assert(toks.take(0) =~= Seq::<u32>::empty());
            }
            while s < seq_len
                invariant
                    n == raw@.len(),
                    seq_len >= 1,
                    0 <= d < dim,
                    base + seq_len * dim <= n,
                    s <= seq_len,
                    toks == token_seq(raw@, seq_len as int, dim as int, i as int, d as int),
                    base == i * seq_len * dim,
                    acc == fsum(toks.take(s as int)),
                decreases seq_len - s,
            {
                proof {
                    assert(s * dim + d < seq_len * dim && s * dim >= 0 && (s + 1) * dim == s * dim
                        + dim) by (nonlinear_arith)
                        requires
                            0 <= s < seq_len,
                            0 <= d < dim,
                    ;
                    assert(toks.take(s + 1).drop_last() =~= toks.take(s as int));
                }
                let v: u32 = raw[base + s * dim + d];
                acc = fadd(acc, v);
                s += 1;
            }
            proof {
                assert(toks.take(seq_len as int) =~= toks);
            }
            let m: u32 = fdiv(acc, divisor);
            row.push(m);
            d += 1;
        }
        proof {
            assert(row@ =~= pooled_row(raw@, seq_len as int, dim as int, i as int));
        }
        r.push(row);
        i += 1;
    }
    r
}

/// Divides a vector by its Euclidean norm.
///
/// Returns the normalized vector and the norm's bit pattern.  The sum
/// of squares decides the path: when it is zero or not a positive
/// finite value, no division happens and the result is a defined
/// all-zero vector — never an undefined value — and the returned
/// norm is zero.  Otherwise the norm is the square root of the sum
/// of squares, rounded down to the float grid, and every coordinate
/// is divided by it.
///
/// An all-zero input always yields the all-zero output: squares and
/// sums of positive zeros stay positive zero, so the guard is taken.
pub fn l2_normalize(v: &Vec<u32>) -> (res: (Vec<u32>, u32))
    ensures
        res.0@.len() == v@.len(),
        degenerate_magnitude(sum_squares(v@)) ==> res.1 == 0 && (forall|i: int|
            0 <= i < res.0@.len() ==> res.0@[i] == 0),
        !degenerate_magnitude(sum_squares(v@)) ==> {
            &&& res.1 < INFINITY_BITS
            &&& mul_bits(res.1, res.1) <= sum_squares(v@)
            &&& mul_bits((res.1 + 1) as u32, (res.1 + 1) as u32) > sum_squares(v@)
            &&& forall|i: int| 0 <= i < res.0@.len() ==> res.0@[i] == div_bits(v@[i], res.1)
        },
        (forall|i: int| 0 <= i < v@.len() ==> v@[i] == 0) ==> (forall|i: int|
            0 <= i < res.0@.len() ==> res.0@[i] == 0),
{
    let n: usize = v.len();
    let mut ssq: u32 = 0;
    let mut i: usize = 0;
    proof {
        assert(v@.take(0) =~= Seq::<u32>::empty());
    }
    while i < n
        invariant
            n == v@.len(),
            i <= n,
            ssq == sum_squares(v@.take(i as int)),
            (forall|j: int| 0 <= j < i ==> v@[j] == 0) ==> ssq == 0,
        decreases n - i,
    {
        proof {
            assert(v@.take(i + 1).drop_last() =~= v@.take(i as int));
        }
        let x: u32 = v[i];
        let sq: u32 = fmul(x, x);
        ssq = fadd(ssq, sq);
        i += 1;
    }
    proof {
        assert(v@.take(n as int) =~= v@);
    }
    if ssq == 0 || ssq >= INFINITY_BITS {
        let mut zeros: Vec<u32> = Vec::new();
        let mut k: usize = 0;
        while k < n
            invariant
                k <= n,
                zeros@.len() == k,
                forall|j: int| 0 <= j < k ==> zeros@[j] == 0,
            decreases n - k,
        {
            zeros.push(0);
            k += 1;
        }
        (zeros, 0)
    } else {
        let norm: u32 = sqrt_below(ssq);
        let mut out: Vec<u32> = Vec::new();
        let mut k: usize = 0;
        while k < n
            invariant
                n == v@.len(),
                k <= n,
                out@.len() == k,
                forall|j: int| 0 <= j < k ==> out@[j] == div_bits(v@[j], norm),
            decreases n - k,
        {
            let q: u32 = fdiv(v[k], norm);
            out.push(q);
            k += 1;
        }
        (out, norm)
    }
}

/// What one finished embedding row looks like, given the raw output
/// it came from: the pooled row divided by its Euclidean norm, or the
/// defined all-zero vector when the pooled row's magnitude is
/// degenerate.  `nm` is the norm's bit pattern, zero on the guarded
/// path.
pub open spec fn normalized_row_ok(
    raw: Seq<u32>,
    seq_len: int,
    dim: int,
    i: int,
    row: Seq<u32>,
    nm: u32,
) -> bool {
    let p = pooled_row(raw, seq_len, dim, i);
    &&& row.len() == dim
    &&& if degenerate_magnitude(sum_squares(p)) {
        nm == 0 && (forall|d: int| 0 <= d < dim ==> row[d] == 0)
    } else {
        &&& nm < INFINITY_BITS
        &&& mul_bits(nm, nm) <= sum_squares(p)
        &&& mul_bits((nm + 1) as u32, (nm + 1) as u32) > sum_squares(p)
        &&& (forall|d: int| 0 <= d < dim ==> row[d] == div_bits(p[d], nm))
    }
}

/// Pools a batch's raw model output and normalizes every pooled row:
/// the complete post-inference step that turns raw output into final
/// embedding vectors, one per surviving image, in batch order.
/// Returns the vectors and, for the caller's diagnostics, the norm
/// each row was divided by — zero where the guarded degenerate path
/// produced the defined all-zero vector.
pub fn pool_and_normalize(raw: &Vec<u32>, rows: usize, seq_len: usize, dim: usize) -> (res: (
    Vec<Vec<u32>>,
    Vec<u32>,
))
    requires
        raw@.len() == rows * seq_len * dim,
        seq_len >= 1,
        seq_len <= u32::MAX,
        dim >= 1,
    ensures
        res.0@.len() == rows,
        res.1@.len() == rows,
        forall|i: int|
            0 <= i < rows ==> normalized_row_ok(
                raw@,
                seq_len as int,
                dim as int,
                i,
                (#[trigger] res.0@[i])@,
                res.1@[i],
            ),
{
    let pooled: Vec<Vec<u32>> = mean_pool(raw, rows, seq_len, dim);
    let mut out: Vec<Vec<u32>> = Vec::new();
    let mut norms: Vec<u32> = Vec::new();
    let mut i: usize = 0;
    while i < rows
        invariant
            pooled@.len() == rows,
            seq_len >= 1,
            dim >= 1,
            forall|j: int|
                0 <= j < rows ==> (#[trigger] pooled@[j])@ == pooled_row(
                    raw@,
                    seq_len as int,
                    dim as int,
                    j,
                ),
            i <= rows,
            out@.len() == i,
            norms@.len() == i,
            forall|j: int|
                0 <= j < i ==> normalized_row_ok(
                    raw@,
                    seq_len as int,
                    dim as int,
                    j,
                    (#[trigger] out@[j])@,
                    norms@[j],
                ),
        decreases rows - i,
    {
        let (normalized, norm) = l2_normalize(&pooled[i]);
        let ghost nv = normalized@;
        out.push(normalized);
        norms.push(norm);
        proof {
            let p = pooled_row(raw@, seq_len as int, dim as int, i as int);
            assert(pooled@[i as int]@ == p);
            assert(out@[i as int]@ == nv);
            assert(normalized_row_ok(raw@, seq_len as int, dim as int, i as int, nv, norm));
        }
        i += 1;
    }
    (out, norms)
}

} // verus!
