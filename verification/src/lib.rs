//! Parallel Mandelbrot frame-generation engine: escape-time evaluation,
//! disjoint partitioning of a frame's pixel buffer across workers, and the
//! state machines that drive a recycling buffer pipeline under adaptive
//! backpressure. Floating-point plane arithmetic, the display surface and the
//! thread plumbing live outside this crate; everything here is integer
//! logic with proved contracts.

use vstd::prelude::*;

pub mod escape;
pub mod partition;
pub mod pixel;
pub mod valve;

use crate::pixel::{digit_flips, digit_values, digits_of, inverted, Digit};

verus! {

/// Width and height of the render surface, in pixels, fixed for a run.
#[derive(Clone, Copy, PartialEq, Eq, Structural, Debug)]
pub struct WindowDimensions {
    pub width: usize,
    pub height: usize,
}

impl WindowDimensions {
    /// Number of pixels in a flat row-major buffer of these dimensions.
    pub fn flat_length(&self) -> (r: usize)
        requires
            self.width * self.height <= usize::MAX,
        ensures
            r == self.width * self.height,
    {
        self.width * self.height
    }
}

impl Default for WindowDimensions {
    fn default() -> (r: Self)
        ensures
            r.width == 1000,
            r.height == 1000,
    {
        WindowDimensions { width: 1000, height: 1000 }
    }
}

/// A fresh zero-initialized pixel buffer for one frame of `dim` pixels.
pub fn frame_buffer(dim: WindowDimensions) -> (r: Vec<u32>)
    requires
        dim.width * dim.height <= usize::MAX,
    ensures
        r@.len() == dim.width * dim.height,
        forall|k: int| 0 <= k < r@.len() ==> r@[k] == 0,
{
    let n = dim.width * dim.height;
    let mut r: Vec<u32> = Vec::new();
    while r.len() < n
        invariant
            r@.len() <= n,
            forall|k: int| 0 <= k < r@.len() ==> r@[k] == 0,
        decreases n - r@.len(),
    {
        r.push(0);
    }
    r
}

/// The centered grid coordinates of the pixel at flat index `i`: column
/// and row, each shifted so that the buffer's center maps near the origin.
/// The row is `i` divided by the height and both axes are centered on half
/// the height, so the mapping is symmetric only on square buffers; the
/// scaling to a plane point (multiply both coordinates by the current scale
/// and add the pan offset) happens outside this crate.
pub fn index_to_cell(i: usize, dim: WindowDimensions) -> (r: (isize, isize))
    requires
        0 < dim.width,
        0 < dim.height,
        dim.width <= isize::MAX,
        dim.height <= isize::MAX,
        i as int / dim.height as int <= isize::MAX,
    ensures
        r.0 == i as int % dim.width as int - dim.height as int / 2,
        r.1 == i as int / dim.height as int - dim.height as int / 2,
{
    let hd2 = (dim.height / 2) as isize;
    let cx = (i % dim.width) as isize - hd2;
    let cy = (i / dim.height) as isize - hd2;
    (cx, cy)
}

/// Law: the index-to-plane mapping is a pure function of pixel index and
/// dimensions: any two results satisfying its contract for the same inputs
/// are identical.
pub proof fn lemma_index_to_cell_deterministic(
    i: usize,
    dim: WindowDimensions,
    r1: (isize, isize),
    r2: (isize, isize),
)
    requires
        r1.0 == i as int % dim.width as int - dim.height as int / 2,
        r1.1 == i as int / dim.height as int - dim.height as int / 2,
        r2.0 == i as int % dim.width as int - dim.height as int / 2,
        r2.1 == i as int / dim.height as int - dim.height as int / 2,
    ensures
        r1 == r2,
{
}

/// Whether the frame-counter overlay for `frame` inverts the pixel at flat
/// index `k`: the decimal digits of `frame` are drawn left to right, eight
/// columns apart, starting one row down and one column in from the
/// top-left corner.
pub open spec fn counter_flips(frame: u64, dim: WindowDimensions, k: int) -> bool {
    exists|j: int|
        0 <= j < digits_of(frame as nat).len() && #[trigger] digit_flips(
            digits_of(frame as nat)[j],
            dim,
            1 + 8 * j,
            1,
            k,
        )
}

/// Like [`counter_flips`], but drawn only up to digit `n`: what a partial
/// drawing of the counter has already inverted.
spec fn counter_flips_upto(frame: u64, dim: WindowDimensions, k: int, n: int) -> bool {
    exists|j: int|
        0 <= j < n && #[trigger] digit_flips(digits_of(frame as nat)[j], dim, 1 + 8 * j, 1, k)
}

/// Draw the decimal digits of `frame` into the top rows of a rendered
/// frame, by inverting pixel blocks (see [`Digit::render_6_10`]): digit `j`
/// is drawn with its top-left corner at row 1, column `1 + 8 * j`. Every
/// pixel outside the digits' lit cells keeps its color.
pub fn insert_frame_counter(frame: u64, buf: &mut Vec<u32>, dim: WindowDimensions)
    requires
        old(buf)@.len() == dim.width * dim.height,
        11 <= dim.height,
        8 * digits_of(frame as nat).len() <= dim.width + 1,
    ensures
        final(buf)@.len() == old(buf)@.len(),
        forall|k: int|
            0 <= k < old(buf)@.len() ==> final(buf)@[k] == (if counter_flips(frame, dim, k) {
                inverted(old(buf)@[k])
            } else {
                old(buf)@[k] as int
            }),
{
    let digits = Digit::from_u64(frame);
    let n = digits.len();
    proof {
        assert(digit_values(digits@).len() == digits@.len());
        assert(n == digits_of(frame as nat).len());
    }
    let mut j: usize = 0;
    while j < n
        invariant
            n == digits@.len(),
            n == digits_of(frame as nat).len(),
            buf@.len() == old(buf)@.len(),
            old(buf)@.len() == dim.width * dim.height,
            11 <= dim.height,
            8 * digits_of(frame as nat).len() <= dim.width + 1,
            digit_values(digits@) == digits_of(frame as nat),
            forall|i: int| 0 <= i < digits@.len() ==> (#[trigger] digits@[i]).0 < 10,
            j <= n,
            forall|k: int|
                0 <= k < old(buf)@.len() ==> buf@[k] == (if counter_flips_upto(
                    frame,
                    dim,
                    k,
                    j as int,
                ) {
                    inverted(old(buf)@[k])
                } else {
                    old(buf)@[k] as int
                }),
        decreases n - j,
    {
        let d = digits[j];
        proof {
            assert(digit_values(digits@)[j as int] == digits@[j as int].0 as int);
            assert(8 * j + 7 <= dim.width);
        }
        let off = 1 + 8 * j;
        d.render_6_10(buf, dim, off, 1);
        proof {
            let gd = digits_of(frame as nat)[j as int];
            assert forall|k: int| 0 <= k < old(buf)@.len() implies buf@[k] == (
            if counter_flips_upto(frame, dim, k, j + 1) {
                inverted(old(buf)@[k])
            } else {
                old(buf)@[k] as int
            }) by {
                if digit_flips(gd, dim, 1 + 8 * (j as int), 1, k) {
                    // This digit inverts pixel k. No earlier digit touched
                    // it: the digits' column ranges are disjoint.
                    assert(!counter_flips_upto(frame, dim, k, j as int)) by {
                        if counter_flips_upto(frame, dim, k, j as int) {
                            let j2 = choose|j2: int|
                                0 <= j2 < j && #[trigger] digit_flips(
                                    digits_of(frame as nat)[j2],
                                    dim,
                                    1 + 8 * j2,
                                    1,
                                    k,
                                );
                            assert(false);
                        }
                    }
                    assert(counter_flips_upto(frame, dim, k, j + 1));
                } else {
                    // This digit leaves pixel k alone, so the set of digits
                    // that have inverted it is unchanged.
                    assert(counter_flips_upto(frame, dim, k, j + 1) == counter_flips_upto(
                        frame,
                        dim,
                        k,
                        j as int,
                    )) by {
                        if counter_flips_upto(frame, dim, k, j + 1) {
                            let j2 = choose|j2: int|
                                0 <= j2 < j + 1 && #[trigger] digit_flips(
                                    digits_of(frame as nat)[j2],
                                    dim,
                                    1 + 8 * j2,
                                    1,
                                    k,
                                );
                            assert(j2 != j);
                            assert(counter_flips_upto(frame, dim, k, j as int));
                        }
                    }
                }
            }
        }
        j = j + 1;
    }
    proof {
        assert forall|k: int| 0 <= k < old(buf)@.len() implies counter_flips_upto(
            frame,
            dim,
            k,
            n as int,
        ) == counter_flips(frame, dim, k) by {
        }
    }
}

} // verus!
