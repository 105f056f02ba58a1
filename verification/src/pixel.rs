//! Packed pixel colors, decimal digits, and the frame-counter overlay.
//!
//! A pixel is a 32-bit packed color, `0x00RRGGBB`. The frame counter is
//! drawn by inverting blocks of pixels of an already rendered buffer in a
//! fixed 6-wide, 10-tall per-digit bitmap: each digit glyph is a 5-by-3
//! cell bitmap scaled 2x. The contracts below say exactly which pixels of
//! the buffer are inverted and that every other pixel is left alone.

use crate::WindowDimensions;
use vstd::arithmetic::div_mod::{
    lemma_div_is_ordered, lemma_div_pos_is_pos, lemma_fundamental_div_mod,
    lemma_fundamental_div_mod_converse, lemma_mod_division_less_than_divisor,
};
use vstd::arithmetic::mul::lemma_mul_is_commutative;
use vstd::prelude::*;

verus! {

/// One display color, as red, green and blue channels.
#[derive(Clone, Copy, PartialEq, Eq, Structural, Debug)]
pub struct Rgb {
    pub r: u8,
    pub g: u8,
    pub b: u8,
}

impl Rgb {
    /// A color from its three channels.
    pub fn from_channels(r: u8, g: u8, b: u8) -> (c: Rgb)
        ensures
            c == (Rgb { r, g, b }),
    {
        Rgb { r, g, b }
    }

    /// The packed `0x00RRGGBB` form of the color, as the display sink and
    /// the pixel buffer hold it.
    pub fn to_u32(self) -> (p: u32)
        ensures
            p == self.r as int * 0x10000 + self.g as int * 0x100 + self.b as int,
    {
        (self.r as u32) * 0x10000 + (self.g as u32) * 0x100 + (self.b as u32)
    }
}

/// The bitwise complement of a packed pixel, as an integer.
pub open spec fn inverted(p: u32) -> int {
    0xFFFF_FFFF - p
}

/// Bitwise inversion of one packed pixel: every channel byte is replaced by
/// its complement, which makes the overlay legible on any background.
pub fn invert_pixel(p: u32) -> (r: u32)
    ensures
        r == inverted(p),
{
    proof {
        assert(!p == 0xFFFF_FFFFu32 - p) by (bit_vector);
    }
    !p
}

/// Row-major addressing of a flat buffer split into rows of `row_len`
/// elements.
#[derive(Clone, Copy, PartialEq, Eq, Structural, Debug)]
pub struct Grid {
    pub row_len: usize,
}

impl Grid {
    /// The half-open range of flat indices holding row `idx`.
    pub fn subslice_range(&self, idx: usize) -> (r: (usize, usize))
        requires
            idx * self.row_len + self.row_len <= usize::MAX,
        ensures
            r.0 == idx * self.row_len,
            r.1 == idx * self.row_len + self.row_len,
    {
        let base_idx = idx * self.row_len;
        (base_idx, base_idx + self.row_len)
    }
}

/// The flat row-major index of the pixel at `row`, `col`.
pub open spec fn flat_index(dim: WindowDimensions, row: int, col: int) -> int {
    row * dim.width as int + col
}

/// A flat row-major index decomposes into the row and column it was built
/// from.
pub proof fn lemma_flat_index_decomposes(dim: WindowDimensions, row: int, col: int)
    requires
        0 < dim.width,
        0 <= row,
        0 <= col < dim.width,
    ensures
        flat_index(dim, row, col) / dim.width as int == row,
        flat_index(dim, row, col) % dim.width as int == col,
{
    lemma_fundamental_div_mod_converse(flat_index(dim, row, col), dim.width as int, row, col);
}

/// One decimal digit, to be drawn by the frame-counter overlay.
#[derive(Clone, Copy, PartialEq, Eq, Structural, Debug)]
pub struct Digit(pub u8);

/// The decimal digits of `v`, most significant first; zero is one digit.
pub open spec fn digits_of(v: nat) -> Seq<int>
    decreases v,
{
    if v < 10 {
        seq![v as int]
    } else {
        digits_of(v / 10).push((v % 10) as int)
    }
}

/// The values of a sequence of digits.
pub open spec fn digit_values(s: Seq<Digit>) -> Seq<int> {
    s.map_values(|d: Digit| d.0 as int)
}

/// Whether cell `cell` of digit `d`'s glyph is lit. A glyph is 5 rows of 3
/// cells; `cell` is the row-major cell index, `3 * row + column`.
pub open spec fn glyph_lit(d: int, cell: int) -> bool {
    if d == 0 {
        cell == 1 || cell == 3 || cell == 5 || cell == 6 || cell == 8 || cell == 9 || cell == 11
            || cell == 13
    } else if d == 1 {
        cell == 1 || cell == 3 || cell == 4 || cell == 7 || cell == 10 || cell == 12 || cell == 13
            || cell == 14
    } else if d == 2 {
        cell == 1 || cell == 3 || cell == 5 || cell == 8 || cell == 10 || cell == 12 || cell == 13
            || cell == 14
    } else if d == 3 {
        cell == 0 || cell == 1 || cell == 5 || cell == 7 || cell == 11 || cell == 12 || cell == 13
    } else if d == 4 {
        cell == 0 || cell == 2 || cell == 3 || cell == 5 || cell == 7 || cell == 8 || cell == 11
            || cell == 14
    } else if d == 5 {
        cell == 0 || cell == 1 || cell == 2 || cell == 3 || cell == 6 || cell == 7 || cell == 11
            || cell == 12 || cell == 13 || cell == 14
    } else if d == 6 {
        cell == 1 || cell == 2 || cell == 3 || cell == 6 || cell == 7 || cell == 9 || cell == 11
            || cell == 13
    } else if d == 7 {
        cell == 0 || cell == 1 || cell == 2 || cell == 5 || cell == 7 || cell == 10 || cell == 13
    } else if d == 8 {
        cell == 1 || cell == 3 || cell == 5 || cell == 7 || cell == 9 || cell == 11 || cell == 13
    } else if d == 9 {
        cell == 1 || cell == 3 || cell == 5 || cell == 7 || cell == 8 || cell == 11 || cell == 13
    } else {
        false
    }
}

/// Executable twin of [`glyph_lit`].
fn glyph_lit_at(d: u8, cell: usize) -> (r: bool)
    ensures
        r == glyph_lit(d as int, cell as int),
{
    if d == 0 {
        cell == 1 || cell == 3 || cell == 5 || cell == 6 || cell == 8 || cell == 9 || cell == 11
            || cell == 13
    } else if d == 1 {
        cell == 1 || cell == 3 || cell == 4 || cell == 7 || cell == 10 || cell == 12 || cell == 13
            || cell == 14
    } else if d == 2 {
        cell == 1 || cell == 3 || cell == 5 || cell == 8 || cell == 10 || cell == 12 || cell == 13
            || cell == 14
    } else if d == 3 {
        cell == 0 || cell == 1 || cell == 5 || cell == 7 || cell == 11 || cell == 12 || cell == 13
    } else if d == 4 {
        cell == 0 || cell == 2 || cell == 3 || cell == 5 || cell == 7 || cell == 8 || cell == 11
            || cell == 14
    } else if d == 5 {
        cell == 0 || cell == 1 || cell == 2 || cell == 3 || cell == 6 || cell == 7 || cell == 11
            || cell == 12 || cell == 13 || cell == 14
    } else if d == 6 {
        cell == 1 || cell == 2 || cell == 3 || cell == 6 || cell == 7 || cell == 9 || cell == 11
            || cell == 13
    } else if d == 7 {
        cell == 0 || cell == 1 || cell == 2 || cell == 5 || cell == 7 || cell == 10 || cell == 13
    } else if d == 8 {
        cell == 1 || cell == 3 || cell == 5 || cell == 7 || cell == 9 || cell == 11 || cell == 13
    } else if d == 9 {
        cell == 1 || cell == 3 || cell == 5 || cell == 7 || cell == 8 || cell == 11 || cell == 13
    } else {
        false
    }
}

/// Whether flat index `k` lies inside the 10-row, 6-column block of digit
/// glyph drawn with its top-left pixel at row `vert`, column `horiz`.
pub open spec fn in_digit_block(dim: WindowDimensions, horiz: int, vert: int, k: int) -> bool {
    let row = k / dim.width as int;
    let col = k % dim.width as int;
    vert <= row < vert + 10 && horiz <= col < horiz + 6
}

/// The glyph cell that flat index `k` falls into, for a glyph drawn with
/// its top-left pixel at row `vert`, column `horiz` (each cell is 2x2
/// pixels).
pub open spec fn digit_cell(dim: WindowDimensions, horiz: int, vert: int, k: int) -> int {
    let row = k / dim.width as int;
    let col = k % dim.width as int;
    ((row - vert) / 2) * 3 + (col - horiz) / 2
}

/// Whether drawing digit `d` with its top-left pixel at row `vert`, column
/// `horiz` inverts the pixel at flat index `k`.
pub open spec fn digit_flips(d: int, dim: WindowDimensions, horiz: int, vert: int, k: int) -> bool {
    in_digit_block(dim, horiz, vert, k) && glyph_lit(d, digit_cell(dim, horiz, vert, k))
}

/// Like [`digit_flips`], but only for glyph cells before `cells` in
/// row-major cell order: the part of the glyph a partial drawing has
/// already inverted.
spec fn digit_flips_upto(
    d: int,
    dim: WindowDimensions,
    horiz: int,
    vert: int,
    k: int,
    cells: int,
) -> bool {
    in_digit_block(dim, horiz, vert, k) && digit_cell(dim, horiz, vert, k) < cells && glyph_lit(
        d,
        digit_cell(dim, horiz, vert, k),
    )
}

/// Invert the single pixel at `row`, `col` of a row-major buffer.
fn flip_pixel(buf: &mut Vec<u32>, dim: WindowDimensions, row: usize, col: usize)
    requires
        old(buf)@.len() == dim.width * dim.height,
        row < dim.height,
        col < dim.width,
    ensures
        final(buf)@.len() == old(buf)@.len(),
        0 <= flat_index(dim, row as int, col as int) < old(buf)@.len(),
        flat_index(dim, row as int, col as int) / dim.width as int == row,
        flat_index(dim, row as int, col as int) % dim.width as int == col,
        final(buf)@[flat_index(dim, row as int, col as int)] == inverted(
            old(buf)@[flat_index(dim, row as int, col as int)],
        ),
        forall|k: int|
            0 <= k < old(buf)@.len() && k != flat_index(dim, row as int, col as int)
                ==> final(buf)@[k] == old(buf)@[k],
{
    proof {
        lemma_flat_index_decomposes(dim, row as int, col as int);
        assert(row * dim.width + col < dim.width * dim.height) by (nonlinear_arith)
            requires
                row < dim.height && col < dim.width,
        ;
    }
    let n = buf.len();
    let idx = row * dim.width + col;
    let p = buf[idx];
    let q = invert_pixel(p);
    buf[idx] = q;
}

impl Digit {
    /// The decimal digits of `v`, most significant first, ready to be
    /// drawn; zero yields the single digit zero.
    pub fn from_u64(v: u64) -> (r: Vec<Digit>)
        ensures
            digit_values(r@) == digits_of(v as nat),
            1 <= r@.len(),
            forall|i: int| 0 <= i < r@.len() ==> (#[trigger] r@[i]).0 < 10,
        decreases v,
    {
        if v < 10 {
            let mut r: Vec<Digit> = Vec::new();
            r.push(Digit(v as u8));
            proof {
                assert(digit_values(r@) =~= seq![v as int]);
            }
            r
        } else {
            let mut r = Digit::from_u64(v / 10);
            r.push(Digit((v % 10) as u8));
            proof {
                assert(digit_values(r@) =~= digits_of((v as nat) / 10).push((v as nat % 10) as int));
            }
            r
        }
    }

    /// Draw this digit as a 6-wide, 10-tall block of inverted pixels whose
    /// top-left corner is at row `vert_offset`, column `horiz_offset` of the
    /// row-major buffer: each lit cell of the 5-by-3 glyph bitmap inverts a
    /// 2x2 pixel square, and every pixel outside the lit cells is untouched.
    pub fn render_6_10(
        &self,
        buf: &mut Vec<u32>,
        dim: WindowDimensions,
        horiz_offset: usize,
        vert_offset: usize,
    )
        requires
            self.0 < 10,
            old(buf)@.len() == dim.width * dim.height,
            horiz_offset + 6 <= dim.width,
            vert_offset + 10 <= dim.height,
        ensures
            final(buf)@.len() == old(buf)@.len(),
            forall|k: int|
                0 <= k < old(buf)@.len() ==> final(buf)@[k] == (if digit_flips(
                    self.0 as int,
                    dim,
                    horiz_offset as int,
                    vert_offset as int,
                    k,
                ) {
                    inverted(old(buf)@[k])
                } else {
                    old(buf)@[k] as int
                }),
    {
        let d = self.0;
        let ghost gd = d as int;
        let ghost h = horiz_offset as int;
        let ghost v = vert_offset as int;
        let ghost w = dim.width as int;
        let mut y: usize = 0;
        while y < 5
            invariant
                d == self.0,
                d < 10,
                buf@.len() == old(buf)@.len(),
                old(buf)@.len() == dim.width * dim.height,
                horiz_offset + 6 <= dim.width,
                vert_offset + 10 <= dim.height,
                gd == d as int,
                h == horiz_offset as int,
                v == vert_offset as int,
                w == dim.width as int,
                y <= 5,
                forall|k: int|
                    0 <= k < old(buf)@.len() ==> buf@[k] == (if digit_flips_upto(
                        gd,
                        dim,
                        h,
                        v,
                        k,
                        3 * y,
                    ) {
                        inverted(old(buf)@[k])
                    } else {
                        old(buf)@[k] as int
                    }),
            decreases 5 - y,
        {
            let mut x: usize = 0;
            while x < 3
                invariant
                    d == self.0,
                    d < 10,
                    buf@.len() == old(buf)@.len(),
                    old(buf)@.len() == dim.width * dim.height,
                    horiz_offset + 6 <= dim.width,
                    vert_offset + 10 <= dim.height,
                    gd == d as int,
                    h == horiz_offset as int,
                    v == vert_offset as int,
                    w == dim.width as int,
                    y < 5,
                    x <= 3,
                    forall|k: int|
                        0 <= k < old(buf)@.len() ==> buf@[k] == (if digit_flips_upto(
                            gd,
                            dim,
                            h,
                            v,
                            k,
                            3 * y + x,
                        ) {
                            inverted(old(buf)@[k])
                        } else {
                            old(buf)@[k] as int
                        }),
                decreases 3 - x,
            {
                let ghost c = 3 * y + x as int;
                let cell = y * 3 + x;
                if glyph_lit_at(d, cell) {
                    let ghost buf0 = buf@;
                    flip_pixel(buf, dim, vert_offset + 2 * y, horiz_offset + 2 * x);
                    flip_pixel(buf, dim, vert_offset + 2 * y, horiz_offset + 2 * x + 1);
                    flip_pixel(buf, dim, vert_offset + 2 * y + 1, horiz_offset + 2 * x);
                    flip_pixel(buf, dim, vert_offset + 2 * y + 1, horiz_offset + 2 * x + 1);
                    proof {
                        let i00 = flat_index(dim, v + 2 * y, h + 2 * x);
                        let i01 = flat_index(dim, v + 2 * y, h + 2 * x + 1);
                        let i10 = flat_index(dim, v + 2 * y + 1, h + 2 * x);
                        let i11 = flat_index(dim, v + 2 * y + 1, h + 2 * x + 1);
                        assert forall|k: int| 0 <= k < old(buf)@.len() implies buf@[k] == (
                        if digit_flips_upto(gd, dim, h, v, k, c + 1) {
                            inverted(old(buf)@[k])
                        } else {
                            old(buf)@[k] as int
                        }) by {
                            let row = k / w;
                            let col = k % w;
                            lemma_fundamental_div_mod(k, w);
                            lemma_mul_is_commutative(w, row);
                            if k == i00 || k == i01 || k == i10 || k == i11 {
                                // k is one of the four pixels of the cell
                                // drawn just now: its glyph cell is exactly
                                // `c`, so it was still untouched before, and
                                // the four flat indices are distinct, so it
                                // was inverted exactly once.
                                let dy = row - (v + 2 * y);
                                let dx = col - (h + 2 * x);
                                lemma_fundamental_div_mod_converse(row - v, 2, y as int, dy);
                                lemma_fundamental_div_mod_converse(col - h, 2, x as int, dx);
                                assert(digit_cell(dim, h, v, k) == c);
                                assert(!digit_flips_upto(gd, dim, h, v, k, c));
                                assert(digit_flips_upto(gd, dim, h, v, k, c + 1));
                            } else {
                                // k is any other pixel: untouched by the
                                // four flips, and its glyph cell is not `c`,
                                // so the set of already-drawn cells that
                                // cover it is unchanged.
                                if in_digit_block(dim, h, v, k) && digit_cell(dim, h, v, k) == c
                                    && glyph_lit(gd, c) {
                                    let qr = (row - v) / 2;
                                    let qc = (col - h) / 2;
                                    lemma_fundamental_div_mod(row - v, 2);
                                    lemma_fundamental_div_mod(col - h, 2);
                                    lemma_mod_division_less_than_divisor(row - v, 2);
                                    lemma_mod_division_less_than_divisor(col - h, 2);
                                    lemma_div_pos_is_pos(row - v, 2);
                                    lemma_div_pos_is_pos(col - h, 2);
                                    lemma_div_is_ordered(row - v, 9, 2);
                                    lemma_div_is_ordered(col - h, 5, 2);
                                    // base-3 uniqueness: the cell pins the
                                    // glyph row and column.
                                    assert(qr == y && qc == x);
                                    assert(k == i00 || k == i01 || k == i10 || k == i11);
                                    assert(false);
                                }
                                assert(digit_flips_upto(gd, dim, h, v, k, c + 1)
                                    == digit_flips_upto(gd, dim, h, v, k, c));
                            }
                        }
                    }
                } else {
                    proof {
                        assert forall|k: int| 0 <= k < old(buf)@.len() implies digit_flips_upto(
                            gd,
                            dim,
                            h,
                            v,
                            k,
                            c + 1,
                        ) == digit_flips_upto(gd, dim, h, v, k, c) by {
                        }
                    }
                }
                x = x + 1;
            }
            y = y + 1;
        }
        proof {
            assert forall|k: int| 0 <= k < old(buf)@.len() implies digit_flips_upto(
                gd,
                dim,
                h,
                v,
                k,
                15,
            ) == digit_flips(gd, dim, h, v, k) by {
                if in_digit_block(dim, h, v, k) {
                    let row = k / w;
                    let col = k % w;
                    lemma_div_pos_is_pos(row - v, 2);
                    lemma_div_pos_is_pos(col - h, 2);
                    lemma_div_is_ordered(row - v, 9, 2);
                    lemma_div_is_ordered(col - h, 5, 2);
                    assert(0 <= digit_cell(dim, h, v, k) < 15);
                }
            }
        }
    }
}

} // verus!
