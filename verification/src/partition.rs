//! Disjoint partitioning of a frame's pixel indices across a worker pool.
//!
//! A frame is rendered by a fixed pool of workers writing concurrently into
//! one buffer with no per-write synchronization. That is safe exactly when
//! every pixel index is owned by one worker and no index by two, so the
//! partition is computed here, with the coverage and disjointness facts
//! proved once and for all. Two policies are offered: contiguous chunks
//! (worker `k` owns `[k*len/workers, (k+1)*len/workers)`, which for
//! `len == width*height` and `workers == height` is exactly one pixel row
//! per worker) and interleaved strides (worker `k` owns every index congruent
//! to `k` modulo the worker count).

use vstd::arithmetic::div_mod::{
    lemma_div_is_ordered, lemma_div_multiples_vanish, lemma_fundamental_div_mod,
    lemma_fundamental_div_mod_converse,
};
use vstd::arithmetic::mul::{
    lemma_mul_inequality, lemma_mul_is_commutative, lemma_mul_is_distributive_add_other_way,
};
use vstd::prelude::*;

verus! {

/// Lower bound of worker `k`'s contiguous chunk of `len` indices shared
/// among `workers` workers; the chunk is `[chunk_lo(k), chunk_lo(k + 1))`.
pub open spec fn chunk_lo(len: int, workers: int, k: int) -> int {
    k * len / workers
}

/// The chunk bounds grow with the worker number.
pub proof fn lemma_chunk_lo_monotone(len: int, workers: int, k1: int, k2: int)
    requires
        0 <= len,
        0 < workers,
        0 <= k1 <= k2,
    ensures
        chunk_lo(len, workers, k1) <= chunk_lo(len, workers, k2),
{
    lemma_mul_inequality(k1, k2, len);
    lemma_div_is_ordered(k1 * len, k2 * len, workers);
}

/// Law (coverage): every index `i < len` lies in the chunk of the worker
/// `((i + 1) * workers - 1) / len`, which is a valid worker number. So the
/// union of all workers' chunks is the whole index range.
pub proof fn lemma_chunk_covers(len: int, workers: int, i: int)
    requires
        0 < workers,
        0 <= i < len,
    ensures
        ({
            let k = ((i + 1) * workers - 1) / len;
            0 <= k < workers && chunk_lo(len, workers, k) <= i < chunk_lo(len, workers, k + 1)
        }),
{
    let x = (i + 1) * workers - 1;
    let k = x / len;
    assert(workers - 1 <= (i + 1) * workers - 1 <= len * workers - 1) by (nonlinear_arith)
        requires
            0 < workers && 0 <= i < len,
    ;
    // k is a valid worker number: x <= (workers - 1) * len + (len - 1).
    assert((workers - 1) * len + (len - 1) == len * workers - 1) by (nonlinear_arith);
    lemma_div_is_ordered(x, (workers - 1) * len + (len - 1), len);
    lemma_fundamental_div_mod_converse((workers - 1) * len + (len - 1), len, workers - 1, len - 1);
    lemma_fundamental_div_mod(x, len);
    assert(0 <= k < workers);
    // chunk_lo(k) <= i: from k * len <= x = i * workers + (workers - 1).
    assert(len * k <= x);
    lemma_mul_is_commutative(len, k);
    lemma_div_is_ordered(k * len, x, workers);
    assert(x == i * workers + (workers - 1)) by (nonlinear_arith)
        requires
            x == (i + 1) * workers - 1,
    ;
    lemma_fundamental_div_mod_converse(x, workers, i, workers - 1);
    assert(chunk_lo(len, workers, k) <= i);
    // i < chunk_lo(k + 1): from (k + 1) * len > x, so (k + 1) * len >= (i + 1) * workers.
    assert(x < len * (k + 1)) by {
        lemma_fundamental_div_mod(x, len);
        vstd::arithmetic::mul::lemma_mul_is_distributive_add(len, k, 1);
    }
    lemma_mul_is_commutative(len, k + 1);
    assert((i + 1) * workers <= (k + 1) * len);
    lemma_div_is_ordered((i + 1) * workers, (k + 1) * len, workers);
    lemma_mul_is_commutative(i + 1, workers);
    lemma_div_multiples_vanish(i + 1, workers);
    assert(i + 1 <= chunk_lo(len, workers, k + 1));
}

/// Law (disjointness): no index lies in the chunks of two distinct workers.
pub proof fn lemma_chunk_owner_unique(len: int, workers: int, i: int, k1: int, k2: int)
    requires
        0 <= len,
        0 < workers,
        0 <= k1,
        0 <= k2,
        chunk_lo(len, workers, k1) <= i < chunk_lo(len, workers, k1 + 1),
        chunk_lo(len, workers, k2) <= i < chunk_lo(len, workers, k2 + 1),
    ensures
        k1 == k2,
{
    if k1 < k2 {
        lemma_chunk_lo_monotone(len, workers, k1 + 1, k2);
    }
    if k2 < k1 {
        lemma_chunk_lo_monotone(len, workers, k2 + 1, k1);
    }
}

/// For a row-major buffer split across one worker per row, the chunks are
/// exactly the pixel rows.
pub proof fn lemma_chunk_is_row(width: int, height: int, k: int)
    requires
        0 <= width,
        0 < height,
    ensures
        chunk_lo(width * height, height, k) == k * width,
{
    assert(k * (width * height) == height * (k * width)) by (nonlinear_arith);
    lemma_div_multiples_vanish(k * width, height);
}

/// The contiguous chunk of pixel indices owned by worker `k` of `workers`,
/// as a half-open range `[r.0, r.1)`.
pub fn chunk_bounds(len: usize, workers: usize, k: usize) -> (r: (usize, usize))
    requires
        0 < workers,
        k < workers,
        len * workers <= usize::MAX,
    ensures
        r.0 == chunk_lo(len as int, workers as int, k as int),
        r.1 == chunk_lo(len as int, workers as int, k as int + 1),
        r.0 <= r.1 <= len,
{
    proof {
        lemma_mul_inequality(k as int + 1, workers as int, len as int);
        lemma_mul_is_commutative(workers as int, len as int);
        lemma_mul_inequality(k as int, k as int + 1, len as int);
        lemma_chunk_lo_monotone(len as int, workers as int, k as int, k as int + 1);
        lemma_chunk_lo_monotone(len as int, workers as int, k as int + 1, workers as int);
        lemma_mul_is_commutative(len as int, workers as int);
        lemma_div_multiples_vanish(len as int, workers as int);
        vstd::arithmetic::div_mod::lemma_div_pos_is_pos(k as int * len as int, workers as int);
        vstd::arithmetic::mul::lemma_mul_nonnegative(k as int, len as int);
    }
    let lo = k * len / workers;
    let hi = (k + 1) * len / workers;
    (lo, hi)
}

/// The bounds of every worker's chunk, in worker order. Adjacent chunks
/// share an endpoint, the first starts at zero and the last ends at `len`,
/// so together with [`lemma_chunk_covers`] and [`lemma_chunk_owner_unique`]
/// the returned ranges partition `[0, len)`.
pub fn partition_bounds(len: usize, workers: usize) -> (r: Vec<(usize, usize)>)
    requires
        0 < workers,
        len * workers <= usize::MAX,
    ensures
        r@.len() == workers,
        forall|k: int|
            0 <= k < workers ==> (#[trigger] r@[k]).0 == chunk_lo(len as int, workers as int, k)
                && r@[k].1 == chunk_lo(len as int, workers as int, k + 1),
        r@[0].0 == 0,
        r@[workers as int - 1].1 == len,
        forall|k: int| 0 <= k < workers as int - 1 ==> (#[trigger] r@[k]).1 == r@[k + 1].0,
{
    let mut r: Vec<(usize, usize)> = Vec::new();
    let mut k: usize = 0;
    while k < workers
        invariant
            k <= workers,
            0 < workers,
            len * workers <= usize::MAX,
            r@.len() == k,
            forall|j: int|
                0 <= j < k ==> (#[trigger] r@[j]).0 == chunk_lo(len as int, workers as int, j)
                    && r@[j].1 == chunk_lo(len as int, workers as int, j + 1),
        decreases workers - k,
    {
        let b = chunk_bounds(len, workers, k);
        r.push(b);
        k = k + 1;
    }
    proof {
        assert(chunk_lo(len as int, workers as int, 0) == 0) by {
            vstd::arithmetic::div_mod::lemma_div_of0(workers as int);
        }
        assert(chunk_lo(len as int, workers as int, workers as int) == len) by {
            lemma_mul_is_commutative(workers as int, len as int);
            lemma_div_multiples_vanish(len as int, workers as int);
        }
    }
    r
}

/// The worker owning index `i` under the interleaved-stride policy.
pub open spec fn stride_owner(i: int, workers: int) -> int {
    i % workers
}

/// Law: under the stride policy every index below `len` has exactly one
/// owner, and it is a valid worker number.
pub proof fn lemma_stride_owner_unique(i: int, workers: int)
    requires
        0 <= i,
        0 < workers,
    ensures
        0 <= stride_owner(i, workers) < workers,
{
    vstd::arithmetic::div_mod::lemma_mod_division_less_than_divisor(i, workers);
}

/// The indices owned by worker `k` of `workers` under the interleaved-stride
/// policy: every `i < len` with `i % workers == k`, in increasing order.
pub fn stride_indices(k: usize, workers: usize, len: usize) -> (r: Vec<usize>)
    requires
        0 < workers,
        k < workers,
        len <= usize::MAX - workers,
    ensures
        forall|j: int|
            0 <= j < r@.len() ==> #[trigger] r@[j] == k + j * workers && r@[j] < len,
        forall|i: int|
            0 <= i < len && stride_owner(i, workers as int) == k ==> r@.contains(i as usize),
{
    let mut r: Vec<usize> = Vec::new();
    let mut next: usize = k;
    proof {
        vstd::arithmetic::mul::lemma_mul_basics_1(workers as int);
    }
    while next < len
        invariant
            0 < workers,
            k < workers,
            len <= usize::MAX - workers,
            next == k + r@.len() * workers,
            forall|j: int|
                0 <= j < r@.len() ==> #[trigger] r@[j] == k + j * workers && r@[j] < len,
        decreases len + workers - next,
    {
        r.push(next);
        proof {
            lemma_mul_is_distributive_add_other_way(workers as int, r@.len() - 1, 1);
        }
        next = next + workers;
    }
    proof {
        let w = workers as int;
        assert forall|i: int|
            0 <= i < len && stride_owner(i, w) == k implies r@.contains(i as usize) by {
            let j = i / w;
            lemma_fundamental_div_mod(i, w);
            vstd::arithmetic::div_mod::lemma_div_pos_is_pos(i, w);
            lemma_mul_is_commutative(w, j);
            assert(i == k + j * w);
            // i is below the first index past the end of the walk.
            assert(j < r@.len()) by {
                if j >= r@.len() {
                    lemma_mul_inequality(r@.len() as int, j, w);
                }
            }
            assert(r@[j] == i as usize);
        }
    }
    r
}

} // verus!
