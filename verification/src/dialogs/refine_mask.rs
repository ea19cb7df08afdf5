//! Refine Mask: feather, shift, smooth and contrast over a layer mask's
//! existing coverage, with a preview over a chosen backdrop.
//!
//! The document is not touched until the user confirms, and confirming hands
//! over the parameters; the host runs the morphology. The preview composites
//! the layer's pixels against the refined coverage.

use super::chrome;
use super::chrome::{DialogButton, DialogKeys, DialogOutcome};
use crate::ieee::Real32;
use crate::rounding;
use crate::strings;
use crate::text;
use vstd::prelude::*;

verus! {

/// What the preview composites the masked content over.
#[derive(Clone, Copy, PartialEq, Eq, Structural, Debug)]
pub enum PreviewBackground {
    /// Solid black: makes light halos obvious.
    Black,
    /// Solid white: makes dark halos obvious.
    White,
    /// A checkerboard of fixed neutrals at one-preview-pixel cells.
    Checker,
}

impl Default for PreviewBackground {
    fn default() -> (r: Self)
        ensures
            r == PreviewBackground::Checker,
    {
        PreviewBackground::Checker
    }
}

impl PreviewBackground {
    /// The choices, in swatch order.
    pub const ALL: [PreviewBackground; 3] = [
        PreviewBackground::Black,
        PreviewBackground::White,
        PreviewBackground::Checker,
    ];

    pub fn label(self) -> (r: &'static str)
        ensures
            r@ == match self {
                PreviewBackground::Black => strings::entry("ui.refine_mask.background.black"@),
                PreviewBackground::White => strings::entry("ui.refine_mask.background.white"@),
                PreviewBackground::Checker => strings::entry("ui.refine_mask.background.checker"@),
            },
    {
        match self {
            PreviewBackground::Black => strings::tr("ui.refine_mask.background.black"),
            PreviewBackground::White => strings::tr("ui.refine_mask.background.white"),
            PreviewBackground::Checker => strings::tr("ui.refine_mask.background.checker"),
        }
    }

    /// The grey under one preview pixel: the checkerboard is darker where row
    /// and column add up to an even number.
    pub open spec fn grey(self, index: int, width: int) -> int {
        match self {
            PreviewBackground::Black => 0,
            PreviewBackground::White => 255,
            PreviewBackground::Checker => {
                let i = index % 0x1_0000_0000;
                let w = if width > 0 {
                    width
                } else {
                    1
                };
                if (i / w + i % w) % 2 == 0 {
                    160
                } else {
                    200
                }
            },
        }
    }

    fn backdrop(self, index: usize, width: u32) -> (r: u8)
        ensures
            r == self.grey(index as int, width as int),
    {
        match self {
            PreviewBackground::Black => 0,
            PreviewBackground::White => 255,
            PreviewBackground::Checker => {
                let i: u64 = index as u64 % 0x1_0000_0000;
                let w: u64 = if width > 0 {
                    width as u64
                } else {
                    1
                };
                assert(i / w <= i) by (nonlinear_arith)
                    requires
                        w >= 1,
                ;
                if (i / w + i % w) % 2 == 0 {
                    160
                } else {
                    200
                }
            },
        }
    }
}

/// The refinement parameters one confirmation bakes.
#[derive(Clone, Copy, PartialEq, Structural, Debug)]
pub struct RefineMaskSpec {
    /// Soften the edge: the ramp reaches this many pixels to each side.
    pub feather_px: Real32,
    /// Shift the edge: positive expands, negative contracts.
    pub shift_px: i32,
    /// Round the boundary (removes spikes and stair-steps).
    pub smooth_px: u32,
    /// Push the coverage ramp away from the 50% midpoint, from zero to one.
    pub contrast: Real32,
    /// What the preview composites over (a preview-only choice; it never
    /// reaches the mask).
    pub background: PreviewBackground,
}

impl View for RefineMaskSpec {
    type V = RefineMaskSpec;

    open spec fn view(&self) -> RefineMaskSpec {
        *self
    }
}

impl Default for RefineMaskSpec {
    fn default() -> (r: Self)
        ensures
            r == (RefineMaskSpec {
                feather_px: Real32 { bits: 0 },
                shift_px: 0,
                smooth_px: 0,
                contrast: Real32 { bits: 0 },
                background: PreviewBackground::Checker,
            }),
            r.identity(),
    {
        RefineMaskSpec {
            feather_px: Real32 { bits: 0 },
            shift_px: 0,
            smooth_px: 0,
            contrast: Real32 { bits: 0 },
            background: PreviewBackground::Checker,
        }
    }
}

/// The morphology a refinement runs, in pixels of the plane it runs over.
#[derive(Clone, Copy, PartialEq, Structural, Debug)]
pub struct RefineParams {
    pub feather_px: Real32,
    pub shift_px: i32,
    pub smooth_px: u32,
    pub contrast: Real32,
}

impl RefineMaskSpec {
    /// Equal number for number.
    pub open spec fn same(self, other: RefineMaskSpec) -> bool {
        &&& self.feather_px.equals(other.feather_px)
        &&& self.shift_px == other.shift_px
        &&& self.smooth_px == other.smooth_px
        &&& self.contrast.equals(other.contrast)
        &&& self.background == other.background
    }

    /// Two parameter sets, equal number for number.
    pub fn same_as(&self, other: &RefineMaskSpec) -> (r: bool)
        ensures
            r == self.same(*other),
    {
        self.feather_px.is_equal(other.feather_px) && self.shift_px == other.shift_px
            && self.smooth_px == other.smooth_px && self.contrast.is_equal(other.contrast)
            && self.background == other.background
    }

    /// The morphology parameters this spec runs.
    pub fn params(&self) -> (r: RefineParams)
        ensures
            r == (RefineParams {
                feather_px: self.feather_px,
                shift_px: self.shift_px,
                smooth_px: self.smooth_px,
                contrast: self.contrast,
            }),
    {
        RefineParams {
            feather_px: self.feather_px,
            shift_px: self.shift_px,
            smooth_px: self.smooth_px,
            contrast: self.contrast,
        }
    }

    /// Nothing would change.
    pub open spec fn identity(self) -> bool {
        self.feather_px.at_most(Real32 { bits: 0 }) && self.shift_px == 0 && self.smooth_px == 0
            && self.contrast.at_most(Real32 { bits: 0 })
    }

    /// Whether anything would change: an all-identity spec has nothing to do.
    pub fn is_identity(&self) -> (r: bool)
        ensures
            r == self.identity(),
    {
        self.feather_px.is_at_most(Real32 { bits: 0 }) && self.shift_px == 0 && self.smooth_px == 0
            && self.contrast.is_at_most(Real32 { bits: 0 })
    }
}

/// The preview's bounded size: a canvas whose largest side exceeds this is
/// nearest-downscaled before the pipeline runs.
pub const PREVIEW_MAX_SIDE: u32 = 256;

/// The size a preview is drawn at: its longer side at the limit, aspect kept,
/// and nothing drawn more than twice its size.
pub open spec fn drawn_size(width: u32, height: u32) -> (Real32, Real32) {
    let two = Real32 { bits: 0x4000_0000 };
    let larger = if width >= height {
        width
    } else {
        height
    };
    let fit = Real32::of_whole(PREVIEW_MAX_SIDE as nat).over_spec(Real32::of_whole(larger as nat));
    let scale = if two.below(fit) {
        two
    } else {
        fit
    };
    (
        Real32::of_whole(width as nat).times_spec(scale),
        Real32::of_whole(height as nat).times_spec(scale),
    )
}

/// The size a preview is drawn at.
pub fn preview_size(width: u32, height: u32) -> (r: (Real32, Real32))
    ensures
        r == drawn_size(width, height),
{
    let two = Real32 { bits: 0x4000_0000 };
    let larger: u32 = if width >= height {
        width
    } else {
        height
    };
    let fit = Real32::from_u64(PREVIEW_MAX_SIDE as u64).over(Real32::from_u64(larger as u64));
    let scale = if two.is_below(fit) {
        two
    } else {
        fit
    };
    (Real32::from_u64(width as u64).times(scale), Real32::from_u64(height as u64).times(scale))
}

/// A side after a downscale: never nothing.
pub open spec fn reduced(side: int, step: int) -> int {
    if side / step > 1 {
        side / step
    } else {
        1
    }
}

/// Where along a side sample `i` of a downscale is read.
pub open spec fn sampled(i: int, step: int, side: int) -> int {
    if i * step < side - 1 {
        i * step
    } else {
        side - 1
    }
}

/// The pixel sample `i` of a downscale is read from.
pub open spec fn source_pixel(i: int, w: int, h: int, step: int) -> int {
    sampled(i / reduced(w, step), step, h) * w + sampled(i % reduced(w, step), step, w)
}

/// Every `step`-th sample of a plane of `k` bytes per pixel.
pub open spec fn downscaled(plane: Seq<u8>, w: int, h: int, step: int, k: int) -> Seq<u8> {
    Seq::new(
        (reduced(w, step) * reduced(h, step) * k) as nat,
        |j: int| plane[source_pixel(j / k, w, h, step) * k + j % k],
    )
}

proof fn lemma_source(i: int, w: int, h: int, step: int)
    requires
        w >= 1,
        h >= 1,
        step >= 1,
        0 <= i < reduced(w, step) * reduced(h, step),
    ensures
        0 <= source_pixel(i, w, h, step) < w * h,
        0 <= i / reduced(w, step) < reduced(h, step),
        0 <= i % reduced(w, step) < reduced(w, step),
{
    let dw = reduced(w, step);
    let dh = reduced(h, step);
    let y = i / dw;
    let x = i % dw;
    assert(0 <= y < dh && 0 <= x < dw) by (nonlinear_arith)
        requires
            0 <= i < dw * dh,
            dw >= 1,
            y == i / dw,
            x == i % dw,
    ;
    let sy = sampled(y, step, h);
    let sx = sampled(x, step, w);
    assert(y * step >= 0 && x * step >= 0) by (nonlinear_arith)
        requires
            y >= 0,
            x >= 0,
            step >= 1,
    ;
    assert(0 <= sy <= h - 1 && 0 <= sx <= w - 1);
    assert(0 <= sy * w + sx < w * h) by (nonlinear_arith)
        requires
            0 <= sy <= h - 1,
            0 <= sx <= w - 1,
            w >= 1,
    ;
}

/// Nearest-neighbour downscale of a plane of `k` bytes per pixel by a whole
/// step; the plane, and the sides it has then.
pub fn downscale(plane: &Vec<u8>, w: u32, h: u32, step: u32, k: usize) -> (r: (Vec<u8>, u32, u32))
    requires
        w >= 1,
        h >= 1,
        step >= 1,
        1 <= k <= 4,
        plane@.len() == w * h * k,
    ensures
        r.0@ == downscaled(plane@, w as int, h as int, step as int, k as int),
        r.1 == reduced(w as int, step as int),
        r.2 == reduced(h as int, step as int),
{
    let dw: u32 = if w / step > 1 {
        w / step
    } else {
        1
    };
    let dh: u32 = if h / step > 1 {
        h / step
    } else {
        1
    };
    let size: usize = plane.len();
    assert(dw <= w && dh <= h) by (nonlinear_arith)
        requires
            dw == w / step || dw == 1,
            dh == h / step || dh == 1,
            w >= 1,
            h >= 1,
            step >= 1,
    ;
    assert(0 <= dw * dh <= w * h && dw * dh * k <= w * h * k && dw * dh <= dw * dh * k)
        by (nonlinear_arith)
        requires
            dw <= w,
            dh <= h,
            k >= 1,
    ;
    let count: usize = dw as usize * dh as usize;
    let ghost target = downscaled(plane@, w as int, h as int, step as int, k as int);
    let mut out: Vec<u8> = Vec::new();
    let mut i: usize = 0;
    while i < count
        invariant
            i <= count,
            count == dw * dh,
            dw == reduced(w as int, step as int),
            dh == reduced(h as int, step as int),
            w >= 1,
            h >= 1,
            step >= 1,
            1 <= k <= 4,
            size == plane@.len(),
            plane@.len() == w * h * k,
            count * k <= size,
            target == downscaled(plane@, w as int, h as int, step as int, k as int),
            target.len() == dw * dh * k,
            out@ == target.take(i * k),
        decreases count - i,
    {
        proof {
            lemma_source(i as int, w as int, h as int, step as int);
        }
        let y: u64 = (i / dw as usize) as u64;
        let x: u64 = (i % dw as usize) as u64;
        assert(y * step <= 0xffff_ffff * 0xffff_ffff && x * step <= 0xffff_ffff * 0xffff_ffff)
            by (nonlinear_arith)
            requires
                y <= 0xffff_ffff,
                x <= 0xffff_ffff,
                step <= 0xffff_ffff,
        ;
        let sy: usize = if y * (step as u64) < (h - 1) as u64 {
            (y * step as u64) as usize
        } else {
            (h - 1) as usize
        };
        let sx: usize = if x * (step as u64) < (w - 1) as u64 {
            (x * step as u64) as usize
        } else {
            (w - 1) as usize
        };
        let ghost source = source_pixel(i as int, w as int, h as int, step as int);
        assert(source == sy * w + sx);
        assert(source * k + k <= w * h * k && sy * w <= source && source <= source * k)
            by (nonlinear_arith)
            requires
                0 <= source < w * h,
                k >= 1,
                sx >= 0,
                source == sy * w + sx,
        ;
        let from: usize = (sy * w as usize + sx) * k;
        assert(i * k + k <= count * k) by (nonlinear_arith)
            requires
                i < count,
                k >= 1,
        ;
        let mut c: usize = 0;
        while c < k
            invariant
                c <= k,
                1 <= k <= 4,
                i < count,
                from == source * k,
                source == source_pixel(i as int, w as int, h as int, step as int),
                from + k <= size,
                size == plane@.len(),
                i * k + k <= target.len(),
                target == downscaled(plane@, w as int, h as int, step as int, k as int),
                out@ == target.take(i * k + c),
            decreases k - c,
        {
            out.push(plane[from + c]);
            proof {
                let j = i * k + c;
                assert(j / (k as int) == i && j % (k as int) == c) by (nonlinear_arith)
                    requires
                        j == i * k + c,
                        0 <= c < k,
                ;
                assert(target[j] == plane@[source * k + c]);
                assert(out@ =~= target.take(j + 1));
            }
            c = c + 1;
        }
        proof {
            assert((i + 1) * k == i * k + k) by (nonlinear_arith);
        }
        i = i + 1;
    }
    assert(count * k == target.len());
    assert(out@ =~= target);
    (out, dw, dh)
}

/// A byte as a fraction of 255.
pub open spec fn unit_fraction(value: u8) -> Real32 {
    Real32::of_whole(value as nat).over_spec(Real32 { bits: 0x437f_0000 })
}

/// One colour byte of the preview: the ink by the coverage and the layer's own
/// alpha, over the backdrop, in single precision.
pub open spec fn blended(ink: u8, alpha: u8, coverage: u8, backdrop: u8) -> u8 {
    let strength = unit_fraction(alpha).times_spec(unit_fraction(coverage));
    let rest = (Real32 { bits: 0x3f80_0000 }).minus_spec(strength);
    let value = Real32::of_whole(ink as nat).times_spec(strength).plus_spec(
        Real32::of_whole(backdrop as nat).times_spec(rest),
    );
    rounding::truncated(value.rounded_spec().number(), 255) as u8
}

/// The byte at `i`, nothing past the end.
pub open spec fn byte_at(bytes: Seq<u8>, i: int) -> u8 {
    if i < bytes.len() {
        bytes[i]
    } else {
        0
    }
}

/// Byte `j` of the preview: colour bytes blended, the fourth opaque.
pub open spec fn preview_byte(
    content: Seq<u8>,
    coverage: Seq<u8>,
    width: int,
    background: PreviewBackground,
    j: int,
) -> u8 {
    let i = j / 4;
    if j % 4 == 3 {
        255
    } else {
        blended(
            byte_at(content, j),
            byte_at(content, i * 4 + 3),
            byte_at(coverage, i),
            background.grey(i, width) as u8,
        )
    }
}

fn fraction_of(value: u8) -> (r: Real32)
    ensures
        r == unit_fraction(value),
{
    Real32::from_u64(value as u64).over(Real32 { bits: 0x437f_0000 })
}

fn read_byte(bytes: &Vec<u8>, i: usize) -> (r: u8)
    ensures
        r == byte_at(bytes@, i as int),
{
    if i < bytes.len() {
        bytes[i]
    } else {
        0
    }
}

fn blend(ink: u8, strength: Real32, backdrop: u8) -> (r: u8)
    ensures
        forall|alpha: u8, coverage: u8|
            strength == unit_fraction(alpha).times_spec(unit_fraction(coverage)) ==> r
                == #[trigger] blended(ink, alpha, coverage, backdrop),
{
    let rest = (Real32 { bits: 0x3f80_0000 }).minus(strength);
    let value = Real32::from_u64(ink as u64).times(strength).plus(
        Real32::from_u64(backdrop as u64).times(rest),
    );
    value.rounded().to_u8()
}

/// Composite `content` against `coverage` over `background`'s backdrop: the
/// coverage is the content's alpha ramp, straight-alpha over the backdrop.
pub fn composite_preview(
    content: &Vec<u8>,
    coverage: &Vec<u8>,
    width: u32,
    height: u32,
    background: PreviewBackground,
) -> (r: Vec<u8>)
    requires
        width * height * 4 <= usize::MAX,
    ensures
        r@ == Seq::new(
            (width * height * 4) as nat,
            |j: int| preview_byte(content@, coverage@, width as int, background, j),
        ),
{
    let ghost target = Seq::new(
        (width * height * 4) as nat,
        |j: int| preview_byte(content@, coverage@, width as int, background, j),
    );
    assert(0 <= width * height) by (nonlinear_arith);
    let n: usize = width as usize * height as usize;
    let mut out: Vec<u8> = Vec::new();
    let mut i: usize = 0;
    while i < n
        invariant
            i <= n,
            n == width * height,
            n * 4 <= usize::MAX,
            target == Seq::new(
                (width * height * 4) as nat,
                |j: int| preview_byte(content@, coverage@, width as int, background, j),
            ),
            out@ == target.take(i * 4),
        decreases n - i,
    {
        let alpha = read_byte(content, i * 4 + 3);
        let cover = read_byte(coverage, i);
        let strength = fraction_of(alpha).times(fraction_of(cover));
        let grey = background.backdrop(i, width);
        out.push(blend(read_byte(content, i * 4), strength, grey));
        out.push(blend(read_byte(content, i * 4 + 1), strength, grey));
        out.push(blend(read_byte(content, i * 4 + 2), strength, grey));
        out.push(255);
        assert(target[i * 4] == preview_byte(content@, coverage@, width as int, background, i * 4));
        assert(target[i * 4 + 1] == preview_byte(
            content@,
            coverage@,
            width as int,
            background,
            i * 4 + 1,
        ));
        assert(target[i * 4 + 2] == preview_byte(
            content@,
            coverage@,
            width as int,
            background,
            i * 4 + 2,
        ));
        assert(target[i * 4 + 3] == 255);
        i = i + 1;
        assert(out@ =~= target.take(i * 4));
    }
    assert(out@ =~= target);
    out
}

/// A mask as a refinement gives it back: coverage over a rectangle of its own,
/// which feathering can grow past the canvas.
#[derive(Debug)]
pub struct RefinedMask {
    pub left: i32,
    pub top: i32,
    pub width: u32,
    pub height: u32,
    /// One byte per pixel of the rectangle, row by row.
    pub coverage: Vec<u8>,
}

impl RefinedMask {
    /// The coverage of a canvas pixel: none outside the rectangle.
    pub open spec fn covers(self, x: int, y: int) -> u8 {
        if self.left <= x < self.left + self.width && self.top <= y < self.top + self.height {
            byte_at(self.coverage@, (y - self.top) * self.width + (x - self.left))
        } else {
            0
        }
    }

    fn coverage_at(&self, x: u32, y: u32) -> (r: u8)
        ensures
            r == self.covers(x as int, y as int),
    {
        let dx: i64 = x as i64 - self.left as i64;
        let dy: i64 = y as i64 - self.top as i64;
        if dx < 0 || dy < 0 || dx >= self.width as i64 || dy >= self.height as i64 {
            return 0;
        }
        assert(0 <= dy * self.width <= 0xffff_ffff * 0xffff_ffff) by (nonlinear_arith)
            requires
                0 <= dy <= 0xffff_ffff,
                self.width <= 0xffff_ffff,
        ;
        let at: u64 = dy as u64 * self.width as u64 + dx as u64;
        if at < self.coverage.len() as u64 {
            self.coverage[at as usize]
        } else {
            0
        }
    }

    /// The coverage brought back to the canvas: one byte per canvas pixel.
    pub fn on_canvas(&self, width: u32, height: u32) -> (r: Vec<u8>)
        requires
            width * height <= usize::MAX,
        ensures
            r@ == Seq::new(
                (width * height) as nat,
                |i: int| self.covers(i % width as int, i / width as int),
            ),
    {
        let ghost target = Seq::new(
            (width * height) as nat,
            |i: int| self.covers(i % width as int, i / width as int),
        );
        assert(0 <= width * height) by (nonlinear_arith);
        let n: usize = width as usize * height as usize;
        let mut out: Vec<u8> = Vec::new();
        let mut i: usize = 0;
        while i < n
            invariant
                i <= n,
                n == width * height,
                target == Seq::new(
                    (width * height) as nat,
                    |i: int| self.covers(i % width as int, i / width as int),
                ),
                out@ == target.take(i as int),
            decreases n - i,
        {
            let ghost (y, x) = (i as int / width as int, i as int % width as int);
            assert(width > 0 && 0 <= y < height && 0 <= x < width) by (nonlinear_arith)
                requires
                    0 <= i < width * height,
                    y == i as int / width as int,
                    x == i as int % width as int,
            ;
            let row: u32 = (i / width as usize) as u32;
            let column: u32 = (i % width as usize) as u32;
            out.push(self.coverage_at(column, row));
            i = i + 1;
            assert(out@ =~= target.take(i as int));
        }
        assert(out@ =~= target);
        out
    }
}

/// What a [`RefineMaskDialog`] stands for.
#[verifier::ext_equal]
pub struct RefineMaskModel {
    pub spec: RefineMaskSpec,
    pub content: Seq<u8>,
    pub baseline: Seq<u8>,
    pub width: u32,
    pub height: u32,
    /// The parameters have moved since the preview was built.
    pub preview_dirty: bool,
}

impl RefineMaskModel {
    /// One content pixel and one coverage byte per canvas pixel.
    pub open spec fn valid(self) -> bool {
        &&& self.width >= 1
        &&& self.height >= 1
        &&& self.content.len() == self.width * self.height * 4
        &&& self.baseline.len() == self.width * self.height
        &&& self.content.len() <= usize::MAX
    }

    /// The step the preview is downscaled by.
    pub open spec fn step(self) -> int {
        let largest = if self.width > self.height {
            self.width
        } else {
            self.height
        };
        if largest <= PREVIEW_MAX_SIDE {
            1
        } else {
            (largest + PREVIEW_MAX_SIDE - 1) / PREVIEW_MAX_SIDE as int
        }
    }

    /// What a confirmation hands over: the parameters, where they do anything.
    pub open spec fn confirmation(self) -> Option<RefineMaskSpec> {
        if self.spec.identity() {
            None
        } else {
            Some(self.spec)
        }
    }
}

/// The Refine Mask dialog over one layer's pixels and mask coverage.
#[derive(Debug)]
pub struct RefineMaskDialog {
    spec: RefineMaskSpec,
    /// The layer's stored pixels, canvas-indexed.
    content: Vec<u8>,
    /// The mask's baseline coverage, one byte per canvas pixel.
    baseline: Vec<u8>,
    width: u32,
    height: u32,
    /// Set whenever the spec moves, so the next frame rebuilds the preview.
    preview_dirty: bool,
}

impl View for RefineMaskDialog {
    type V = RefineMaskModel;

    closed spec fn view(&self) -> RefineMaskModel {
        RefineMaskModel {
            spec: self.spec,
            content: self.content@,
            baseline: self.baseline@,
            width: self.width,
            height: self.height,
            preview_dirty: self.preview_dirty,
        }
    }
}

impl RefineMaskDialog {
    /// Start from a different parameter set.
    pub fn with_spec(
        spec: RefineMaskSpec,
        content: Vec<u8>,
        baseline: Vec<u8>,
        width: u32,
        height: u32,
    ) -> (r: Self)
        ensures
            r@ == (RefineMaskModel {
                spec,
                content: content@,
                baseline: baseline@,
                width,
                height,
                preview_dirty: true,
            }),
    {
        RefineMaskDialog { spec, content, baseline, width, height, preview_dirty: true }
    }

    /// Build over the layer's stored pixels and the mask's baseline coverage.
    pub fn new(content: Vec<u8>, baseline: Vec<u8>, width: u32, height: u32) -> (r: Self)
        ensures
            r@ == (RefineMaskModel {
                spec: RefineMaskSpec {
                    feather_px: Real32 { bits: 0 },
                    shift_px: 0,
                    smooth_px: 0,
                    contrast: Real32 { bits: 0 },
                    background: PreviewBackground::Checker,
                },
                content: content@,
                baseline: baseline@,
                width,
                height,
                preview_dirty: true,
            }),
            r@.spec.identity(),
    {
        Self::with_spec(RefineMaskSpec::default(), content, baseline, width, height)
    }

    pub fn spec(&self) -> (r: RefineMaskSpec)
        ensures
            r == self@.spec,
    {
        self.spec
    }

    /// Take the parameters the controls hold; the preview is stale where they
    /// moved.
    pub fn set_spec(&mut self, spec: RefineMaskSpec)
        ensures
            final(self)@ == (RefineMaskModel {
                spec,
                preview_dirty: old(self)@.preview_dirty || !old(self)@.spec.same(spec),
                ..old(self)@
            }),
    {
        if !self.spec.same_as(&spec) {
            self.preview_dirty = true;
        }
        self.spec = spec;
    }

    /// Whether the preview has to be built again.
    pub fn is_preview_dirty(&self) -> (r: bool)
        ensures
            r == self@.preview_dirty,
    {
        self.preview_dirty
    }

    /// The preview has been built.
    pub fn preview_built(&mut self)
        ensures
            final(self)@ == (RefineMaskModel { preview_dirty: false, ..old(self)@ }),
    {
        self.preview_dirty = false;
    }

    /// The step the preview is downscaled by: one on a canvas that fits
    /// [`PREVIEW_MAX_SIDE`].
    pub fn preview_step(&self) -> (r: u32)
        ensures
            r == self@.step(),
            r >= 1,
    {
        let largest: u32 = if self.width > self.height {
            self.width
        } else {
            self.height
        };
        if largest <= PREVIEW_MAX_SIDE {
            1
        } else {
            ((largest as u64 + 255) / 256) as u32
        }
    }

    /// Whether there is one content pixel and one coverage byte per canvas
    /// pixel.
    pub fn is_consistent(&self) -> (r: bool)
        ensures
            r == self@.valid(),
    {
        assert(0 <= self.width * self.height <= 0xffff_ffff * 0xffff_ffff) by (nonlinear_arith)
            requires
                self.width <= 0xffff_ffff,
                self.height <= 0xffff_ffff,
        ;
        let pixels: u64 = self.width as u64 * self.height as u64;
        self.width >= 1 && self.height >= 1 && self.content.len() as u128 == pixels as u128 * 4
            && self.baseline.len() as u128 == pixels as u128
    }

    /// The content and the baseline the preview is made from, and their sides:
    /// as they are where the canvas fits [`PREVIEW_MAX_SIDE`], and downscaled
    /// on larger ones so the preview stays bounded.
    pub fn preview_source(&self) -> (r: (Vec<u8>, Vec<u8>, u32, u32))
        requires
            self@.step() > 1 ==> self@.valid(),
        ensures
            self@.step() == 1 ==> r.0@ == self@.content && r.1@ == self@.baseline && r.2
                == self@.width && r.3 == self@.height,
            self@.step() > 1 ==> {
                &&& r.0@ == downscaled(
                    self@.content,
                    self@.width as int,
                    self@.height as int,
                    self@.step(),
                    4,
                )
                &&& r.1@ == downscaled(
                    self@.baseline,
                    self@.width as int,
                    self@.height as int,
                    self@.step(),
                    1,
                )
                &&& r.2 == reduced(self@.width as int, self@.step())
                &&& r.3 == reduced(self@.height as int, self@.step())
            },
    {
        let step = self.preview_step();
        if step == 1 {
            return (self.content.clone(), self.baseline.clone(), self.width, self.height);
        }
        assert(self.width * self.height * 1 == self.width * self.height) by (nonlinear_arith);
        let (content, w, h) = downscale(&self.content, self.width, self.height, step, 4);
        let (baseline, _, _) = downscale(&self.baseline, self.width, self.height, step, 1);
        (content, baseline, w, h)
    }

    /// The preview bytes, once the host has refined the coverage of
    /// [`RefineMaskDialog::preview_source`]: the content of a preview of
    /// `width` by `height` over the chosen backdrop.
    pub fn preview_rgba(
        &self,
        content: &Vec<u8>,
        coverage: &Vec<u8>,
        width: u32,
        height: u32,
    ) -> (r: Vec<u8>)
        requires
            width * height * 4 <= usize::MAX,
        ensures
            r@ == Seq::new(
                (width * height * 4) as nat,
                |j: int|
                    preview_byte(content@, coverage@, width as int, self@.spec.background, j),
            ),
    {
        composite_preview(content, coverage, width, height, self.spec.background)
    }

    pub fn title(&self) -> (r: &'static str)
        ensures
            r@ == strings::entry("ui.refine_mask.title"@),
    {
        strings::tr("ui.refine_mask.title")
    }

    pub fn confirm_label(&self) -> (r: &'static str)
        ensures
            r@ == strings::entry("ui.refine_mask.confirm"@),
    {
        strings::tr("ui.refine_mask.confirm")
    }

    /// The parameters a confirmation hands over, where they do anything.
    pub fn confirm(&self) -> (r: Option<RefineMaskSpec>)
        ensures
            r == self@.confirmation(),
    {
        if self.spec.is_identity() {
            None
        } else {
            Some(self.spec)
        }
    }

    /// Why there is nothing to confirm.
    pub fn blocked_reason(&self) -> (r: Option<String>)
        ensures
            r is Some <==> self@.confirmation() is None,
            r matches Some(reason) ==> reason@ == strings::entry(
                "ui.refine_mask.nothing.to.refine"@,
            ),
    {
        if self.spec.is_identity() {
            Some(text::copied(strings::tr("ui.refine_mask.nothing.to.refine")))
        } else {
            None
        }
    }

    /// Escape and Enter.
    pub fn resolve(&self, keys: DialogKeys) -> (r: DialogOutcome<RefineMaskSpec>)
        ensures
            r == chrome::settled(keys, self@.confirmation()),
    {
        chrome::settle(keys, self.confirm())
    }

    /// A button of the action row.
    pub fn press(&self, button: DialogButton) -> (r: DialogOutcome<RefineMaskSpec>)
        ensures
            r == chrome::pressed(button, self@.confirmation()),
    {
        chrome::press(button, self.confirm())
    }
}

/// A canvas that fits the preview is previewed as it is: no sample is left out
/// and none is moved.
pub proof fn a_small_canvas_is_not_downscaled(plane: Seq<u8>, w: int, h: int, k: int)
    requires
        w >= 1,
        h >= 1,
        1 <= k <= 4,
        plane.len() == w * h * k,
    ensures
        downscaled(plane, w, h, 1, k) == plane,
{
    let d = downscaled(plane, w, h, 1, k);
    assert(reduced(w, 1) == w && reduced(h, 1) == h);
    assert forall|j: int| 0 <= j < plane.len() implies d[j] == plane[j] by {
        let i = j / k;
        assert(0 <= i < w * h && i * k + j % k == j) by (nonlinear_arith)
            requires
                0 <= j < w * h * k,
                k >= 1,
                i == j / k,
        ;
        lemma_source(i, w, h, 1);
        assert((i / w) * w + i % w == i) by (nonlinear_arith)
            requires
                w >= 1,
        ;
        assert(sampled(i / w, 1, h) == i / w);
        assert(sampled(i % w, 1, w) == i % w);
    }
    assert(d =~= plane);
}

/// A mask over exactly the canvas comes back as it is.
pub proof fn a_mask_over_the_canvas_comes_back(mask: RefinedMask)
    requires
        mask.left == 0,
        mask.top == 0,
        mask.coverage@.len() == mask.width * mask.height,
    ensures
        Seq::new(
            (mask.width * mask.height) as nat,
            |i: int| mask.covers(i % mask.width as int, i / mask.width as int),
        ) == mask.coverage@,
{
    let (w, h) = (mask.width as int, mask.height as int);
    let back = Seq::new((w * h) as nat, |i: int| mask.covers(i % w, i / w));
    assert forall|i: int| 0 <= i < w * h implies #[trigger] back[i] == mask.coverage@[i] by {
        assert(w > 0 && 0 <= i / w < h && 0 <= i % w < w && (i / w) * w + i % w == i)
            by (nonlinear_arith)
            requires
                0 <= i < w * h,
                w >= 0,
        ;
    }
    assert(back =~= mask.coverage@);
}

} // verus!
