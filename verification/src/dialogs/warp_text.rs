//! Layer ▸ Text ▸ Warp Text: the style, the bend and the two distortions of the
//! active text layer's live warp.
//!
//! A confirmation carries the whole new warp, so the change is one undo step.
//! The text stays editable. Cancel writes nothing. An unchanged warp is refused
//! with a reason rather than recording an undo step that changes nothing.

use super::chrome;
use super::chrome::{DialogButton, DialogKeys, DialogOutcome};
use crate::accuracy;
use crate::ieee;
use crate::ieee::Real32;
use crate::layer_id::LayerId;
use crate::rounding;
use crate::rounding::Number;
use crate::strings;
use crate::text;
use vstd::arithmetic::power2;
use vstd::prelude::*;

verus! {

/// The shapes a text can be bent into.
#[derive(Clone, Copy, PartialEq, Eq, Structural, Hash, Debug)]
pub enum WarpStyle {
    /// No warp at all.
    Flat,
    Arc,
    ArcLower,
    ArcUpper,
    Arch,
    Bulge,
    Flag,
    Wave,
    Fish,
    Rise,
    Fisheye,
    Inflate,
    Squeeze,
    Twist,
    Custom,
}

impl WarpStyle {
    /// The style choices, Flat first (it clears the warp) and Custom last (its
    /// mesh handles are dragged on the canvas).
    pub const ALL: [WarpStyle; 15] = [
        WarpStyle::Flat,
        WarpStyle::Arc,
        WarpStyle::ArcLower,
        WarpStyle::ArcUpper,
        WarpStyle::Arch,
        WarpStyle::Bulge,
        WarpStyle::Flag,
        WarpStyle::Wave,
        WarpStyle::Fish,
        WarpStyle::Rise,
        WarpStyle::Fisheye,
        WarpStyle::Inflate,
        WarpStyle::Squeeze,
        WarpStyle::Twist,
        WarpStyle::Custom,
    ];
}

/// A handle of a warp mesh.
#[derive(Clone, Copy, PartialEq, Structural, Debug)]
pub struct MeshPoint {
    pub x: Real32,
    pub y: Real32,
}

/// A text layer's warp.
#[derive(PartialEq, Debug)]
pub struct TextWarp {
    pub style: WarpStyle,
    pub bend: Real32,
    pub horizontal: Real32,
    pub vertical: Real32,
    /// The mesh dragged on the canvas, for the Custom style.
    pub mesh: Option<Vec<MeshPoint>>,
}

/// What a [`TextWarp`] stands for.
#[verifier::ext_equal]
pub struct WarpModel {
    pub style: WarpStyle,
    pub bend: Real32,
    pub horizontal: Real32,
    pub vertical: Real32,
    pub mesh: Option<Seq<MeshPoint>>,
}

impl View for TextWarp {
    type V = WarpModel;

    open spec fn view(&self) -> WarpModel {
        WarpModel {
            style: self.style,
            bend: self.bend,
            horizontal: self.horizontal,
            vertical: self.vertical,
            mesh: match self.mesh {
                Some(points) => Some(points@),
                None => None,
            },
        }
    }
}

/// Two meshes have the same handles.
pub open spec fn same_mesh(a: Option<Seq<MeshPoint>>, b: Option<Seq<MeshPoint>>) -> bool {
    match (a, b) {
        (Some(a), Some(b)) => a.len() == b.len() && forall|i: int|
            0 <= i < a.len() ==> (#[trigger] a[i]).x.equals(b[i].x) && a[i].y.equals(b[i].y),
        (None, None) => true,
        _ => false,
    }
}

impl WarpModel {
    /// No warp.
    pub open spec fn unwarped() -> WarpModel {
        WarpModel {
            style: WarpStyle::Flat,
            bend: Real32 { bits: 0 },
            horizontal: Real32 { bits: 0 },
            vertical: Real32 { bits: 0 },
            mesh: None,
        }
    }

    /// A style at half its bend, undistorted.
    pub open spec fn half_bent(style: WarpStyle) -> WarpModel {
        WarpModel { style, bend: Real32 { bits: 0x3f00_0000 }, ..WarpModel::unwarped() }
    }

    /// Equal number for number.
    pub open spec fn same(self, other: WarpModel) -> bool {
        &&& self.style == other.style
        &&& self.bend.equals(other.bend)
        &&& self.horizontal.equals(other.horizontal)
        &&& self.vertical.equals(other.vertical)
        &&& same_mesh(self.mesh, other.mesh)
    }
}

fn copied_mesh(mesh: &Option<Vec<MeshPoint>>) -> (r: Option<Vec<MeshPoint>>)
    ensures
        chrome::request_view(r) == chrome::request_view(*mesh),
{
    match mesh {
        Some(points) => {
            let mut out: Vec<MeshPoint> = Vec::new();
            let mut i: usize = 0;
            while i < points.len()
                invariant
                    i <= points@.len(),
                    out@ == points@.take(i as int),
                decreases points@.len() - i,
            {
                out.push(points[i]);
                i = i + 1;
            }
            assert(points@.take(i as int) == points@);
            Some(out)
        },
        None => None,
    }
}

fn points_agree(a: &Vec<MeshPoint>, b: &Vec<MeshPoint>) -> (r: bool)
    ensures
        r == same_mesh(Some(a@), Some(b@)),
{
    if a.len() != b.len() {
        return false;
    }
    let mut i: usize = 0;
    while i < a.len()
        invariant
            i <= a@.len(),
            a@.len() == b@.len(),
            forall|k: int|
                0 <= k < i ==> (#[trigger] a@[k]).x.equals(b@[k].x) && a@[k].y.equals(b@[k].y),
        decreases a@.len() - i,
    {
        if !(a[i].x.is_equal(b[i].x) && a[i].y.is_equal(b[i].y)) {
            return false;
        }
        i = i + 1;
    }
    true
}

fn meshes_agree(a: &Option<Vec<MeshPoint>>, b: &Option<Vec<MeshPoint>>) -> (r: bool)
    ensures
        r == same_mesh(chrome::request_view(*a), chrome::request_view(*b)),
{
    match (a, b) {
        (Some(first), Some(second)) => points_agree(first, second),
        (None, None) => true,
        _ => false,
    }
}

impl Default for TextWarp {
    fn default() -> (r: Self)
        ensures
            r@ == WarpModel::unwarped(),
    {
        TextWarp {
            style: WarpStyle::Flat,
            bend: Real32 { bits: 0 },
            horizontal: Real32 { bits: 0 },
            vertical: Real32 { bits: 0 },
            mesh: None,
        }
    }
}

impl TextWarp {
    /// A style at the default 50% bend.
    pub fn new(style: WarpStyle) -> (r: Self)
        ensures
            r@ == WarpModel::half_bent(style),
    {
        TextWarp {
            style,
            bend: Real32 { bits: 0x3f00_0000 },
            horizontal: Real32 { bits: 0 },
            vertical: Real32 { bits: 0 },
            mesh: None,
        }
    }

    /// Whether the text is bent at all.
    pub fn is_active(&self) -> (r: bool)
        ensures
            r == (self@.style != WarpStyle::Flat),
    {
        self.style != WarpStyle::Flat
    }

    /// Two warps, equal number for number.
    pub fn same_as(&self, other: &TextWarp) -> (r: bool)
        ensures
            r == self@.same(other@),
    {
        self.style == other.style && self.bend.is_equal(other.bend) && self.horizontal.is_equal(
            other.horizontal,
        ) && self.vertical.is_equal(other.vertical) && meshes_agree(&self.mesh, &other.mesh)
    }
}

/// A fraction as a whole percent, brought into `-100..=100`.
pub open spec fn whole_percent(v: Real32) -> int {
    if v.finite() {
        let p = v.clamped(Real32 { bits: 0xbf80_0000 }, Real32 { bits: 0x3f80_0000 }).times_spec(
            Real32 { bits: 0x42c8_0000 },
        ).rounded_spec();
        let size = rounding::truncated(p.size_spec().number(), i32::MAX as nat) as int;
        if p.below(Real32 { bits: 0 }) {
            -size
        } else {
            size
        }
    } else {
        0
    }
}

fn percent(v: Real32) -> (r: i32)
    ensures
        r == whole_percent(v),
{
    if v.is_finite() {
        let p = v.clamp(Real32 { bits: 0xbf80_0000 }, Real32 { bits: 0x3f80_0000 }).times(
            Real32 { bits: 0x42c8_0000 },
        ).rounded();
        let wide: u32 = p.abs().to_u32();
        let size: i32 = if wide > 0x7fff_ffff {
            0x7fff_ffff
        } else {
            wide as i32
        };
        if p.is_below(Real32 { bits: 0 }) {
            -size
        } else {
            size
        }
    } else {
        0
    }
}

/// A whole percent as a fraction.
pub open spec fn fraction(percent: int) -> Real32 {
    let hundred = Real32 { bits: 0x42c8_0000 };
    if percent < 0 {
        (Real32 { bits: 0 }).minus_spec(Real32::of_whole((-percent) as nat)).over_spec(hundred)
    } else {
        Real32::of_whole(percent as nat).over_spec(hundred)
    }
}

fn fraction_of(percent: i32) -> (r: Real32)
    ensures
        r == fraction(percent as int),
{
    let hundred = Real32 { bits: 0x42c8_0000 };
    if percent < 0 {
        (Real32 { bits: 0 }).minus(Real32::from_u64((-(percent as i64)) as u64)).over(hundred)
    } else {
        Real32::from_u64(percent as u64).over(hundred)
    }
}

/// A percent brought into `-100..=100`.
pub open spec fn held(percent: int) -> int {
    if percent < -100 {
        -100
    } else if percent > 100 {
        100
    } else {
        percent
    }
}

fn hold(percent: i32) -> (r: i32)
    ensures
        r == held(percent as int),
{
    if percent < -100 {
        -100
    } else if percent > 100 {
        100
    } else {
        percent
    }
}

/// What a [`WarpTextDialog`] stands for.
#[verifier::ext_equal]
pub struct WarpTextModel {
    pub layer: LayerId,
    /// The warp the layer has.
    pub stored: WarpModel,
    pub style: WarpStyle,
    /// The three numbers in whole percent, `-100..=100`, as the fields show
    /// them.
    pub bend: int,
    pub horizontal: int,
    pub vertical: int,
}

impl WarpTextModel {
    /// The warp a confirmation writes. Flat is the "no warp" value whatever
    /// the fields hold. Custom keeps the layer's dragged mesh; the parametric
    /// styles carry none.
    pub open spec fn warp(self) -> WarpModel {
        if self.style == WarpStyle::Flat {
            WarpModel::unwarped()
        } else {
            WarpModel {
                style: self.style,
                bend: fraction(self.bend),
                horizontal: fraction(self.horizontal),
                vertical: fraction(self.vertical),
                mesh: if self.style == WarpStyle::Custom {
                    self.stored.mesh
                } else {
                    None
                },
            }
        }
    }

    /// What a confirmation hands over: a warp that changes something.
    pub open spec fn confirmation(self) -> Option<WarpModel> {
        if self.warp().same(self.stored) {
            None
        } else {
            Some(self.warp())
        }
    }

    /// The dialog as it opens: on the layer's warp, or on Arc at the default
    /// bend, so Enter warps at once.
    pub open spec fn opened(layer: LayerId, stored: WarpModel) -> WarpTextModel {
        let start = if stored.style != WarpStyle::Flat {
            stored
        } else {
            WarpModel::half_bent(WarpStyle::Arc)
        };
        WarpTextModel {
            layer,
            stored,
            style: start.style,
            bend: whole_percent(start.bend),
            horizontal: whole_percent(start.horizontal),
            vertical: whole_percent(start.vertical),
        }
    }
}

/// Layer ▸ Text ▸ Warp Text.
#[derive(Debug)]
pub struct WarpTextDialog {
    layer: LayerId,
    stored: TextWarp,
    style: WarpStyle,
    bend: i32,
    horizontal: i32,
    vertical: i32,
}

impl View for WarpTextDialog {
    type V = WarpTextModel;

    closed spec fn view(&self) -> WarpTextModel {
        WarpTextModel {
            layer: self.layer,
            stored: self.stored@,
            style: self.style,
            bend: self.bend as int,
            horizontal: self.horizontal as int,
            vertical: self.vertical as int,
        }
    }
}

impl WarpTextDialog {
    /// Over the text layer `layer`, whose warp is `stored`. A layer with no
    /// warp opens on Arc at the default 50% bend.
    pub fn new(layer: LayerId, stored: TextWarp) -> (r: Self)
        ensures
            r@ == WarpTextModel::opened(layer, stored@),
    {
        let (style, bend, horizontal, vertical) = if stored.is_active() {
            (stored.style, stored.bend, stored.horizontal, stored.vertical)
        } else {
            (
                WarpStyle::Arc,
                Real32 { bits: 0x3f00_0000 },
                Real32 { bits: 0 },
                Real32 { bits: 0 },
            )
        };
        WarpTextDialog {
            layer,
            stored,
            style,
            bend: percent(bend),
            horizontal: percent(horizontal),
            vertical: percent(vertical),
        }
    }

    pub fn layer(&self) -> (r: LayerId)
        ensures
            r == self@.layer,
    {
        self.layer
    }

    pub fn style(&self) -> (r: WarpStyle)
        ensures
            r == self@.style,
    {
        self.style
    }

    /// The bend and the two distortions, in percent.
    pub fn amounts(&self) -> (r: (i32, i32, i32))
        ensures
            r.0 == self@.bend,
            r.1 == self@.horizontal,
            r.2 == self@.vertical,
    {
        (self.bend, self.horizontal, self.vertical)
    }

    /// Whether the bend and the distortions apply: Flat has nothing to bend,
    /// and Custom's shape is the mesh on the canvas.
    pub fn amounts_apply(&self) -> (r: bool)
        ensures
            r == (self@.style != WarpStyle::Flat && self@.style != WarpStyle::Custom),
    {
        self.style != WarpStyle::Flat && self.style != WarpStyle::Custom
    }

    pub fn set_style(&mut self, style: WarpStyle)
        ensures
            final(self)@ == (WarpTextModel { style, ..old(self)@ }),
    {
        self.style = style;
    }

    /// Set the bend and the two distortions, in whole percent (clamped).
    pub fn set_amounts(&mut self, bend: i32, horizontal: i32, vertical: i32)
        ensures
            final(self)@ == (WarpTextModel {
                bend: held(bend as int),
                horizontal: held(horizontal as int),
                vertical: held(vertical as int),
                ..old(self)@
            }),
    {
        self.bend = hold(bend);
        self.horizontal = hold(horizontal);
        self.vertical = hold(vertical);
    }

    /// The warp a confirmation writes.
    pub fn warp(&self) -> (r: TextWarp)
        ensures
            r@ == self@.warp(),
    {
        if self.style == WarpStyle::Flat {
            return TextWarp::default();
        }
        TextWarp {
            style: self.style,
            bend: fraction_of(self.bend),
            horizontal: fraction_of(self.horizontal),
            vertical: fraction_of(self.vertical),
            mesh: if self.style == WarpStyle::Custom {
                copied_mesh(&self.stored.mesh)
            } else {
                None
            },
        }
    }

    pub fn title(&self) -> (r: &'static str)
        ensures
            r@ == strings::entry("ui.warp_text.title"@),
    {
        strings::tr("ui.warp_text.title")
    }

    pub fn confirm_label(&self) -> (r: &'static str)
        ensures
            r@ == strings::entry("ui.warp_text.confirm"@),
    {
        strings::tr("ui.warp_text.confirm")
    }

    /// The warp a confirmation writes, or `None` when it changes nothing.
    pub fn confirm(&self) -> (r: Option<TextWarp>)
        ensures
            chrome::request_view(r) == self@.confirmation(),
    {
        let warp = self.warp();
        if warp.same_as(&self.stored) {
            None
        } else {
            Some(warp)
        }
    }

    /// Why OK is unavailable, or `None` when it is live.
    pub fn blocked_reason(&self) -> (r: Option<String>)
        ensures
            match r {
                Some(reason) => self@.confirmation() is None && reason@ == strings::entry(
                    "ui.warp_text.unchanged"@,
                ),
                None => self@.confirmation() is Some,
            },
    {
        if self.warp().same_as(&self.stored) {
            Some(text::copied(strings::tr("ui.warp_text.unchanged")))
        } else {
            None
        }
    }

    /// Escape and Enter; Escape wins over Enter.
    pub fn resolve(&self, keys: DialogKeys) -> (r: DialogOutcome<TextWarp>)
        ensures
            r@ == chrome::settled(keys, self@.confirmation()),
    {
        chrome::settle(keys, self.confirm())
    }

    /// A button of the action row.
    pub fn press(&self, button: DialogButton) -> (r: DialogOutcome<TextWarp>)
        ensures
            r@ == chrome::pressed(button, self@.confirmation()),
    {
        chrome::press(button, self.confirm())
    }
}

/// A rounded number at most 100, packed.
proof fn lemma_packed_percent(negative: bool, m: nat, s: int)
    requires
        0 < m <= 0x100_0000,
        -149 <= s,
        m < 0x80_0000 ==> s == -149,
        s < -17 || (s == -17 && m <= 0xc8_0000),
    ensures
        ({
            let p = rounding::packed(ieee::single_format(), negative, m, s);
            &&& p is Finite
            &&& p->Finite_negative == negative
            &&& p->exponent < 0
            &&& p->mantissa <= 100 * power2::pow2((-p->exponent) as nat)
        }),
{
    let f = ieee::single_format();
    f.lemma_bounds();
    power2::lemma2_to64();
    let p = rounding::packed(f, negative, m, s);
    let g = (-p->exponent) as nat;
    if g > 18 {
        power2::lemma_pow2_strictly_increases(18, g);
    }
}

/// A whole percent of a fraction is within `-100..=100`.
proof fn lemma_percent(v: Real32)
    ensures
        -100 <= whole_percent(v) <= 100,
{
    if v.finite() {
        let f = ieee::single_format();
        f.lemma_bounds();
        power2::lemma2_to64();
        let c = v.clamped(Real32 { bits: 0xbf80_0000 }, Real32 { bits: 0x3f80_0000 });
        let hundred = Real32 { bits: 0x42c8_0000 };
        assert(hundred.number() == (Number::Finite {
            negative: false,
            mantissa: 0xc8_0000,
            exponent: (-17) as i32,
        }));
        c.lemma_number(f);
        let negative = c.number().negative();
        let m = c.number()->mantissa as nat;
        let e = c.number()->exponent as int;
        assert(c.magnitude() <= 0x3f80_0000);
        assert(e <= -23 && (e == -23 ==> m <= 0x80_0000));
        reveal(Real32::times_spec);
        reveal(Real32::rounded_spec);
        let n = m * 0xc8_0000;
        let p = rounding::nearest(f, negative, n, 1, e - 17);
        assert(c.times_spec(hundred) == Real32::of(p));
        accuracy::lemma_nearest_fits(f, negative, n, 1, e - 17);
        Real32::lemma_of(p, f);
        accuracy::lemma_whole_fits(f, p);
        let whole = rounding::whole(f, p);
        Real32::lemma_of(whole, f);
        if m > 0 {
            let g = (-e) as nat;
            if g > 24 {
                power2::lemma_pow2_strictly_increases(24, g);
            }
            assert(m <= power2::pow2(g));
            assert(n <= 1 * 0xc8_0000 * power2::pow2(g)) by (nonlinear_arith)
                requires
                    m <= power2::pow2(g),
                    n == m * 0xc8_0000,
            ;
            accuracy::lemma_at_most(f, n, 1, e - 17, 0xc8_0000, -17);
            accuracy::lemma_scaled_range(f, n, 1, e - 17);
            let (a, b) = rounding::scaled(f, n, 1, e - 17);
            if a > 0 {
                lemma_packed_percent(negative, a, b);
            } else {
                power2::lemma_pow2_pos(149);
            }
        } else {
            power2::lemma_pow2_pos(149);
        }
        // The number before it is rounded: at most 100 of its units.
        let w = p->mantissa as nat;
        let unit = power2::pow2((-p->exponent) as nat);
        power2::lemma_pow2_pos((-p->exponent) as nat);
        assert(p->exponent < 0 && w <= 100 * unit);
        let near = (2 * w + unit) / (2 * unit);
        assert(near <= 100) by (nonlinear_arith)
            requires
                near == (2 * w + unit) / (2 * unit),
                w <= 100 * unit,
                unit > 0,
        ;
        assert(whole == rounding::nearest(f, negative, near, 1, 0));
        lemma_whole_percent_size(negative, near);
        let r = Real32::of(whole);
        assert(r.size_spec().number() == (Number::Finite {
            negative: false,
            mantissa: whole->mantissa,
            exponent: whole->exponent,
        }));
    }
}

/// A whole number up to 100, as the format has it.
proof fn lemma_whole_percent_size(negative: bool, near: nat)
    requires
        near <= 100,
    ensures
        ({
            let a = rounding::nearest(ieee::single_format(), negative, near, 1, 0);
            &&& a is Finite
            &&& a->exponent < 0
            &&& a->mantissa as nat / power2::pow2((-a->exponent) as nat) <= 100
        }),
{
    let f = ieee::single_format();
    f.lemma_bounds();
    power2::lemma2_to64();
    let a = rounding::nearest(f, negative, near, 1, 0);
    if near > 0 {
        rounding::lemma_scaled_shift(f, near, 1, 0, 24);
        let n = near * power2::pow2(24);
        assert(n <= 1 * 0xc8_0000 * power2::pow2(7)) by (nonlinear_arith)
            requires
                near <= 100,
                n == near * power2::pow2(24),
                power2::pow2(24) == 0x100_0000,
                power2::pow2(7) == 0x80,
        ;
        accuracy::lemma_at_most(f, n, 1, -24, 0xc8_0000, -17);
        accuracy::lemma_scaled_range(f, near, 1, 0);
        let (m, s) = rounding::scaled(f, near, 1, 0);
        if m > 0 {
            lemma_packed_percent(negative, m, s);
        }
    }
    let g = (-a->exponent) as nat;
    let unit = power2::pow2(g);
    power2::lemma_pow2_pos(g);
    let w = a->mantissa as nat;
    assert(w / unit <= 100) by (nonlinear_arith)
        requires
            w <= 100 * unit,
            unit > 0,
    ;
}

/// The three numbers are whole percents within `-100..=100`, however the dialog
/// opens and whatever is typed.
pub proof fn the_amounts_stay_in_range(
    layer: LayerId,
    stored: WarpModel,
    typed: int,
)
    ensures
        ({
            let m = WarpTextModel::opened(layer, stored);
            &&& -100 <= m.bend <= 100
            &&& -100 <= m.horizontal <= 100
            &&& -100 <= m.vertical <= 100
        }),
        -100 <= held(typed) <= 100,
{
    let start = if stored.style != WarpStyle::Flat {
        stored
    } else {
        WarpModel::half_bent(WarpStyle::Arc)
    };
    lemma_percent(start.bend);
    lemma_percent(start.horizontal);
    lemma_percent(start.vertical);
}

} // verus!
