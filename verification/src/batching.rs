//! Chunking of the frozen discovery order into fixed-size batches.
//!
//! Every batch but possibly the last is exactly the configured
//! capacity; batches cover the whole sequence in order and never
//! overlap.

use vstd::prelude::*;

verus! {

/// How many batches a sequence of `n` items falls into under a batch
/// capacity of `cap`.
pub open spec fn spec_chunk_count(n: int, cap: int) -> int
    recommends
        cap >= 1,
{
    (n + cap - 1) / cap
}

/// The upper bound of chunk `i`: the chunk ends at `(i + 1) * cap`
/// unless the input runs out first.
pub open spec fn spec_chunk_end(n: int, cap: int, i: int) -> int {
    if (i + 1) * cap <= n {
        (i + 1) * cap
    } else {
        n
    }
}

/// Splits `0 .. n` into half-open index ranges of length `cap`, the
/// last possibly shorter.  The ranges tile the whole input in order:
/// range `i` is `[i * cap, min((i + 1) * cap, n))`.
pub fn chunk_bounds(n: usize, cap: usize) -> (r: Vec<(usize, usize)>)
    requires
        cap >= 1,
    ensures
        r@.len() == spec_chunk_count(n as int, cap as int),
        forall|i: int|
            0 <= i < r@.len() ==> (#[trigger] r@[i]).0 == i * cap && r@[i].1 == spec_chunk_end(
                n as int,
                cap as int,
                i,
            ),
{
    let mut r: Vec<(usize, usize)> = Vec::new();
    let mut start: usize = 0;
    proof {
        assert(r@.len() * cap == 0) by (nonlinear_arith)
            requires
                r@.len() == 0,
        ;
        if n == 0 {
            assert((0 + cap - 1) / cap as int == 0) by (nonlinear_arith)
                requires
                    cap >= 1,
            ;
        }
    }
    while start < n
        invariant
            cap >= 1,
            start <= n,
            start == n || start == r@.len() * cap,
            start == n ==> r@.len() == spec_chunk_count(n as int, cap as int),
            forall|i: int|
                0 <= i < r@.len() ==> (#[trigger] r@[i]).0 == i * cap && r@[i].1 == spec_chunk_end(
                    n as int,
                    cap as int,
                    i,
                ),
        decreases n - start,
    {
        let end: usize = if n - start > cap {
            start + cap
        } else {
            n
        };
        let ghost k = r@.len() as int;
        r.push((start, end));
        proof {
            assert(start == k * cap);
            assert((k + 1) * cap == k * cap + cap) by (nonlinear_arith);
            if start + cap <= n {
                assert(r@[k].1 == spec_chunk_end(n as int, cap as int, k));
            } else {
                assert(end == n);
                assert(r@[k].1 == spec_chunk_end(n as int, cap as int, k));
            }
            if end == n {
                assert((n + cap - 1) / cap as int == k + 1) by (nonlinear_arith)
                    requires
                        cap >= 1,
                        k * cap == start,
                        start < n <= start + cap,
                        k >= 0,
                ;
            } else {
                assert(end == start + cap);
                assert(end == (k + 1) * cap);
            }
        }
        start = end;
    }
    r
}

} // verus!
