//! What the preview of a mask promises: it stays within its limit, every pixel
//! keeps its place, and the backdrop is a checkerboard.

use crate::dialogs::refine_mask;
use crate::dialogs::refine_mask::{PreviewBackground, RefineMaskModel, RefinedMask};
use vstd::prelude::*;

verus! {

/// A preview has no side above its limit, and is downscaled no further than
/// that takes.
pub proof fn a_preview_stays_within_its_limit(m: RefineMaskModel)
    requires
        m.width >= 1,
        m.height >= 1,
    ensures
        m.step() >= 1,
        1 <= refine_mask::reduced(m.width as int, m.step()) <= 256,
        1 <= refine_mask::reduced(m.height as int, m.step()) <= 256,
        m.step() > 1 ==> m.width > 256 * (m.step() - 1) || m.height > 256 * (m.step() - 1),
{
    let largest: int = if m.width > m.height {
        m.width as int
    } else {
        m.height as int
    };
    let step = m.step();
    assert(step >= 1 && largest <= 256 * step);
    let (w, h) = (m.width as int, m.height as int);
    assert(w / step <= 256 && h / step <= 256) by (nonlinear_arith)
        requires
            0 <= w <= 256 * step,
            0 <= h <= 256 * step,
            step >= 1,
    ;
}

proof fn lemma_sample(i: int, step: int, side: int)
    requires
        step >= 1,
        side >= 1,
        0 <= i < refine_mask::reduced(side, step),
    ensures
        refine_mask::sampled(i, step, side) == i * step,
        0 <= i * step < side,
{
    let n = refine_mask::reduced(side, step);
    assert(0 <= i * step <= side - 1) by (nonlinear_arith)
        requires
            0 <= i < n,
            n == 1 || n == side / step,
            step >= 1,
            side >= 1,
    ;
}

/// A downscale keeps every pixel in its place: the pixel in a column and a row
/// of the small plane is the one that many steps across and down in the large
/// one, with all its bytes; and there are as many columns and rows as whole
/// steps fit, or one.
pub proof fn a_downscale_keeps_pixels_in_place(
    plane: Seq<u8>,
    w: int,
    h: int,
    step: int,
    k: int,
    x: int,
    y: int,
    byte: int,
)
    requires
        w >= 1,
        h >= 1,
        step >= 1,
        k >= 1,
        0 <= x < refine_mask::reduced(w, step),
        0 <= y < refine_mask::reduced(h, step),
        0 <= byte < k,
    ensures
        ({
            let small = refine_mask::downscaled(plane, w, h, step, k);
            let (columns, rows) = (refine_mask::reduced(w, step), refine_mask::reduced(h, step));
            &&& small.len() == columns * rows * k
            &&& small[(y * columns + x) * k + byte] == plane[((y * step) * w + x * step) * k
                + byte]
            &&& x * step < w
            &&& y * step < h
            &&& w >= step ==> columns * step <= w < (columns + 1) * step
            &&& w < step ==> columns == 1
        }),
{
    let (columns, rows) = (refine_mask::reduced(w, step), refine_mask::reduced(h, step));
    lemma_sample(x, step, w);
    lemma_sample(y, step, h);
    let i = y * columns + x;
    let j = i * k + byte;
    assert(i / columns == y && i % columns == x) by {
        vstd::arithmetic::div_mod::lemma_fundamental_div_mod_converse(i, columns, y, x);
    }
    assert(j / k == i && j % k == byte) by {
        vstd::arithmetic::div_mod::lemma_fundamental_div_mod_converse(j, k, i, byte);
    }
    assert(0 <= i < columns * rows) by (nonlinear_arith)
        requires
            i == y * columns + x,
            0 <= x < columns,
            0 <= y < rows,
    ;
    assert(0 <= j < columns * rows * k) by (nonlinear_arith)
        requires
            j == i * k + byte,
            0 <= i < columns * rows,
            0 <= byte < k,
    ;
    if w >= step {
        assert(w / step >= 1 && (w / step) * step <= w < (w / step + 1) * step)
            by (nonlinear_arith)
            requires
                w >= step,
                step >= 1,
        ;
    } else {
        assert(w / step == 0) by (nonlinear_arith)
            requires
                0 <= w < step,
        ;
    }
}

/// The checkerboard starts dark, and every pixel differs from the one beside it
/// and from the one below it; the other backdrops are one colour.
pub proof fn the_checkerboard_alternates(x: int, y: int, width: int)
    requires
        0 <= x < width,
        0 <= y,
        (y + 2) * width <= 0x1_0000_0000,
    ensures
        ({
            let at = y * width + x;
            let board = PreviewBackground::Checker;
            &&& board.grey(0, width) == 160
            &&& board.grey(at, width) == 160 || board.grey(at, width) == 200
            &&& x + 1 < width ==> board.grey(at + 1, width) != board.grey(at, width)
            &&& board.grey(at + width, width) != board.grey(at, width)
            &&& PreviewBackground::Black.grey(at, width) == 0
            &&& PreviewBackground::White.grey(at, width) == 255
        }),
{
    let at = y * width + x;
    assert(0 <= at && at + width < 0x1_0000_0000 && (y + 1) * width == y * width + width)
        by (nonlinear_arith)
        requires
            at == y * width + x,
            0 <= x < width,
            0 <= y,
            (y + 2) * width <= 0x1_0000_0000,
    ;
    assert(0 * width == 0);
    vstd::arithmetic::div_mod::lemma_fundamental_div_mod_converse(0, width, 0, 0);
    vstd::arithmetic::div_mod::lemma_fundamental_div_mod_converse(at, width, y, x);
    vstd::arithmetic::div_mod::lemma_fundamental_div_mod_converse(at + width, width, y + 1, x);
    if x + 1 < width {
        vstd::arithmetic::div_mod::lemma_fundamental_div_mod_converse(at + 1, width, y, x + 1);
    }
}

/// A refined mask covers the canvas where its rectangle stands: column and row
/// of the rectangle count from its left and its top. Outside it covers nothing.
pub proof fn a_mask_stands_at_its_corner(mask: RefinedMask, x: int, y: int)
    requires
        mask.coverage@.len() == mask.width * mask.height,
    ensures
        0 <= x < mask.width && 0 <= y < mask.height ==> mask.covers(mask.left + x, mask.top + y)
            == mask.coverage@[y * mask.width + x],
        !(0 <= x < mask.width && 0 <= y < mask.height) ==> mask.covers(
            mask.left + x,
            mask.top + y,
        ) == 0,
{
    if 0 <= x < mask.width && 0 <= y < mask.height {
        assert(0 <= y * mask.width + x < mask.width * mask.height) by (nonlinear_arith)
            requires
                0 <= x < mask.width,
                0 <= y < mask.height,
        ;
    }
}

} // verus!
