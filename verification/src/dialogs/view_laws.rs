//! What a preview promises: a picture drawn to fit keeps its shape, a point is
//! drawn to scale and found again under the pointer, and a page has the pixels
//! its size and resolution ask for. The numbers are single precision, so each
//! statement allows what rounding can move them by.

use crate::dialogs::pdf_import;
use crate::dialogs::plane_laws;
use crate::dialogs::refine_mask;
use crate::dialogs::viewfinder;
use crate::dialogs::viewfinder::Viewfinder;
use crate::geometry::Point;
use crate::ieee;
use crate::ieee::Real32;
use crate::ratios;
use crate::rounding;
use crate::values;
use vstd::arithmetic::power2;
use vstd::prelude::*;

verus! {

/// A length shared out among `l` pixels.
proof fn lemma_scale(long: Real32, l: nat)
    requires
        long.finite(),
        plane_laws::fair(values::narrow(long)),
        1 <= l <= u32::MAX,
    ensures
        ({
            let whole = Real32::of_whole(l);
            let scale = long.over_spec(whole);
            let u = values::narrow_one() as int;
            &&& whole.finite()
            &&& scale.finite()
            &&& ratios::close(values::narrow(whole), l * u, 1)
            &&& ratios::close(
                values::narrow(scale) * values::narrow(whole),
                values::narrow(long) * u,
                1,
            )
            &&& u <= 0x40_0000_0000_0000 * values::narrow(scale)
            &&& values::narrow(scale) <= 0x10_0000_0000 * u
            &&& u <= 2 * values::narrow(whole)
            &&& values::narrow(whole) <= 0x2_0000_0000 * u
        }),
{
    ratios::lemma_one();
    ratios::lemma_whole(l);
    let u = values::narrow_one() as int;
    let whole = Real32::of_whole(l);
    let x = values::narrow(whole);
    let v = values::narrow(long);
    assert(u <= l * u <= 0xffff_ffff * u) by (nonlinear_arith)
        requires
            1 <= l <= 0xffff_ffff,
            u > 0,
    ;
    ratios::lemma_within_two(x, l * u, 1);
    let most = values::narrow_most();
    assert(x * values::narrow_parts() <= v * u) by (nonlinear_arith)
        requires
            x <= 0x2_0000_0000 * u,
            u <= v * 0x10_0000,
            u == 0x20_0000_0000_0000_0000_0000_0000_0000_0000_0000int,
    ;
    assert(v * u <= most * x) by (nonlinear_arith)
        requires
            v <= 0x4_0000_0000 * u,
            u <= 2 * x,
            most == 0x8000_0000_0000_0000_0000_0000_0000_0000int * u,
            u > 0,
    ;
    ratios::lemma_quotient(long, whole);
    let s = values::narrow(long.over_spec(whole));
    assert(v * u >= 0) by (nonlinear_arith)
        requires
            v >= 0,
            u > 0,
    ;
    ratios::lemma_within_two(s * x, v * u, 1);
    assert(s > 0) by (nonlinear_arith)
        requires
            v * u <= 2 * (s * x),
            v > 0,
            u > 0,
            x > 0,
    ;
    assert(u <= 0x40_0000_0000_0000 * s) by (nonlinear_arith)
        requires
            v * u <= 2 * (s * x),
            x <= 0x2_0000_0000 * u,
            u <= v * 0x10_0000,
            u > 0,
            s > 0,
    ;
    assert(s <= 0x10_0000_0000 * u) by (nonlinear_arith)
        requires
            s * x <= 2 * (v * u),
            v <= 0x4_0000_0000 * u,
            u <= 2 * x,
            u > 0,
            s > 0,
    ;
}

/// `n` pixels of a length shared out among `l`.
proof fn lemma_share(long: Real32, l: nat, n: nat)
    requires
        long.finite(),
        plane_laws::fair(values::narrow(long)),
        1 <= l <= u32::MAX,
        1 <= n <= u32::MAX,
    ensures
        ({
            let part = Real32::of_whole(n).times_spec(long.over_spec(Real32::of_whole(l)));
            &&& part.finite()
            &&& ratios::close(values::narrow(part) * l, values::narrow(long) * n, 8)
        }),
{
    ratios::lemma_one();
    lemma_scale(long, l);
    ratios::lemma_whole(n);
    let u = values::narrow_one() as int;
    let scale = long.over_spec(Real32::of_whole(l));
    let (s, v) = (values::narrow(scale), values::narrow(long));
    let x = values::narrow(Real32::of_whole(l));
    let y = values::narrow(Real32::of_whole(n));
    assert(u <= n * u <= 0xffff_ffff * u) by (nonlinear_arith)
        requires
            1 <= n <= 0xffff_ffff,
            u > 0,
    ;
    ratios::lemma_within_two(y, n * u, 1);
    let most = values::narrow_most();
    assert(u * values::narrow_parts() <= y * s) by (nonlinear_arith)
        requires
            u <= 2 * y,
            u <= 0x40_0000_0000_0000 * s,
            u == 0x20_0000_0000_0000_0000_0000_0000_0000_0000_0000int,
    ;
    assert(y * s <= most * u) by (nonlinear_arith)
        requires
            0 <= y <= 0x2_0000_0000 * u,
            0 <= s <= 0x10_0000_0000 * u,
            most == 0x8000_0000_0000_0000_0000_0000_0000_0000int * u,
            u > 0,
    ;
    ratios::lemma_product(Real32::of_whole(n), scale);
    let w = values::narrow(Real32::of_whole(n).times_spec(scale));
    // w u x agrees with y s x, and that with y v u.
    ratios::lemma_scaled(w * u, y * s, x, 1);
    ratios::lemma_scaled(s * x, v * u, y, 1);
    assert((y * s) * x == (s * x) * y) by (nonlinear_arith);
    assert((v * u) * y >= 0) by (nonlinear_arith)
        requires
            v >= 0,
            u >= 0,
            y >= 0,
    ;
    ratios::lemma_chain((w * u) * x, (s * x) * y, (v * u) * y, 1, 1);
    assert((w * u) * x == (w * x) * u) by (nonlinear_arith);
    assert((v * u) * y == (y * v) * u) by (nonlinear_arith);
    ratios::lemma_cancelled(w * x, y * v, u, 3);
    // x agrees with l, and y with n.
    assert(y * v >= 0) by (nonlinear_arith)
        requires
            y >= 0,
            v >= 0,
    ;
    ratios::lemma_turned(x, l * u, 1);
    ratios::lemma_within_two(w * x, y * v, 3);
    assert(w >= 0) by (nonlinear_arith)
        requires
            w * x >= 0,
            x > 0,
    ;
    ratios::lemma_scaled(l * u, x, w, 2);
    assert(x * w == w * x) by (nonlinear_arith);
    ratios::lemma_chain((l * u) * w, w * x, y * v, 2, 3);
    ratios::lemma_scaled(y, n * u, v, 1);
    assert((n * u) * v >= 0) by (nonlinear_arith)
        requires
            n >= 0,
            u >= 0,
            v >= 0,
    ;
    ratios::lemma_chain((l * u) * w, y * v, (n * u) * v, 6, 1);
    assert((l * u) * w == (w * l) * u) by (nonlinear_arith);
    assert((n * u) * v == (v * n) * u) by (nonlinear_arith);
    ratios::lemma_cancelled(w * l, v * n, u, 8);
}

/// A picture drawn to fit keeps its shape: each side is to the length as the
/// side of the picture is to its longer one.
pub proof fn a_fitted_picture_keeps_its_shape(width: u32, height: u32, long: Real32)
    requires
        width >= 1,
        height >= 1,
        long.finite(),
        plane_laws::fair(values::narrow(long)),
    ensures
        ({
            let (w, h) = viewfinder::fitted(width, height, long);
            let side = if width >= height {
                width
            } else {
                height
            };
            &&& w.finite()
            &&& h.finite()
            &&& ratios::close(values::narrow(w) * side, values::narrow(long) * width, 8)
            &&& ratios::close(values::narrow(h) * side, values::narrow(long) * height, 8)
        }),
{
    let side = viewfinder::long_side(width, height);
    lemma_share(long, side as nat, width as nat);
    lemma_share(long, side as nat, height as nat);
}

/// A pixel takes its share of the width a picture is drawn at, and a handle is
/// taken from twice its drawn radius.
pub proof fn a_pixel_takes_its_share(origin: Point, width: Real32, columns: u32, handle: Real32)
    requires
        columns >= 1,
        width.finite(),
        plane_laws::fair(values::narrow(width)),
        handle.finite(),
        plane_laws::fair(values::narrow(handle)),
    ensures
        ({
            let view = Viewfinder::over(origin, width, columns);
            let reach = view.reach(handle);
            &&& view.origin == origin
            &&& view.per_px.finite()
            &&& ratios::close(values::narrow(width), values::narrow(view.per_px) * columns, 4)
            &&& reach.finite()
            &&& ratios::close(
                values::narrow(reach) * values::narrow(view.per_px),
                2 * values::narrow(handle) * values::narrow_one(),
                4,
            )
        }),
{
    ratios::lemma_one();
    lemma_scale(width, columns as nat);
    let u = values::narrow_one() as int;
    let view = Viewfinder::over(origin, width, columns);
    let (s, v) = (values::narrow(view.per_px), values::narrow(width));
    let x = values::narrow(Real32::of_whole(columns as nat));
    let n = columns as int;
    ratios::lemma_scaled(x, n * u, s, 1);
    assert((n * u) * s >= 0 && v * u >= 0) by (nonlinear_arith)
        requires
            n >= 0,
            u >= 0,
            s >= 0,
            v >= 0,
    ;
    ratios::lemma_turned(s * x, v * u, 1);
    assert(x * s == s * x) by (nonlinear_arith);
    ratios::lemma_chain(v * u, s * x, (n * u) * s, 2, 1);
    assert((n * u) * s == (s * n) * u) by (nonlinear_arith);
    ratios::lemma_cancelled(v, s * n, u, 4);

    let two = Real32 { bits: 0x4000_0000 };
    let g = values::narrow(handle);
    let most = values::narrow_most();
    assert(u * values::narrow_parts() <= g * (2 * u) <= most * u) by (nonlinear_arith)
        requires
            u <= g * 0x10_0000,
            g <= 0x4_0000_0000 * u,
            most == 0x8000_0000_0000_0000_0000_0000_0000_0000int * u,
            u == 0x20_0000_0000_0000_0000_0000_0000_0000_0000_0000int,
    ;
    ratios::lemma_product(handle, two);
    let twice = handle.times_spec(two);
    let t = values::narrow(twice);
    assert(g * (2 * u) == (2 * g) * u) by (nonlinear_arith);
    ratios::lemma_cancelled(t, 2 * g, u, 1);
    ratios::lemma_within_two(t, 2 * g, 1);
    assert(s * values::narrow_parts() <= t * u) by (nonlinear_arith)
        requires
            s <= 0x10_0000_0000 * u,
            u <= t * 0x10_0000,
            u == 0x20_0000_0000_0000_0000_0000_0000_0000_0000_0000int,
    ;
    assert(t * u <= most * s) by (nonlinear_arith)
        requires
            t <= 0x10_0000_0000 * u,
            u <= 0x40_0000_0000_0000 * s,
            most == 0x8000_0000_0000_0000_0000_0000_0000_0000int * u,
            u > 0,
    ;
    ratios::lemma_quotient(twice, view.per_px);
    let r = values::narrow(twice.over_spec(view.per_px));
    ratios::lemma_scaled(t, 2 * g, u, 1);
    assert((2 * g) * u >= 0) by (nonlinear_arith)
        requires
            g >= 0,
            u >= 0,
    ;
    ratios::lemma_chain(r * s, t * u, (2 * g) * u, 1, 1);
    ratios::lemma_looser(r * s, (2 * g) * u, 3, 4);
}

/// A coordinate that keeps clear of the end of the range when it is drawn.
pub open spec fn drawable(o: Real32, p: Real32, per_px: Real32) -> bool {
    let limit = 0x1000_0000_0000_0000 * values::narrow_one();
    &&& o.finite()
    &&& p.finite()
    &&& values::size(values::narrow(o)) <= limit
    &&& values::size(values::narrow(p) * values::narrow(per_px)) <= limit * values::narrow_one()
}

/// How far rounding moves what is drawn at a distance from an origin: a few
/// parts in 2^23 of both, and of the least numbers.
pub open spec fn slight(off: int, origin: int, span: int, least: int) -> bool {
    values::size(off) * values::narrow_parts() <= 8 * (values::size(origin) + values::size(span))
        + 4 * least * values::narrow_parts()
}

proof fn lemma_in_units(a: int, b: int, u: int, c: int)
    requires
        values::size(a - b) * values::narrow_parts() <= c,
        u > 0,
    ensures
        values::size(a * u - b * u) * values::narrow_parts() <= c * u,
{
    let d = values::size(a - b);
    assert(values::size(a * u - b * u) == d * u) by (nonlinear_arith)
        requires
            d == values::size(a - b),
            u > 0,
    ;
    assert((d * u) * values::narrow_parts() <= c * u) by (nonlinear_arith)
        requires
            d * values::narrow_parts() <= c,
            u > 0,
    ;
}

proof fn lemma_size_in_units(a: int, u: int)
    requires
        u > 0,
    ensures
        values::size(a) * u == values::size(a * u),
{
    assert(values::size(a) * u == values::size(a * u)) by (nonlinear_arith)
        requires
            u > 0,
    ;
}

proof fn lemma_drawn_off(a: int, t: int, z: int, span: int, u: int)
    requires
        values::size(t - span) * values::narrow_parts() <= values::size(span) + u
            * values::narrow_parts(),
        values::size(z - (a + t)) * values::narrow_parts() <= values::size(a + t),
        u >= 0,
    ensures
        values::size(z - (a + span)) * values::narrow_parts() <= 2 * values::size(a) + 3
            * values::size(span) + 2 * u * values::narrow_parts(),
        values::size(z - a) <= 2 * (values::size(a) + values::size(span) + u),
{
}

proof fn lemma_found_off(a: int, z: int, y: int, d: int, span: int, u: int, s: int)
    requires
        values::size(z - (a + span)) * values::narrow_parts() <= 2 * values::size(a) + 3
            * values::size(span) + 2 * u * values::narrow_parts(),
        values::size(y - (z - a)) * values::narrow_parts() <= values::size(z - a),
        values::size(d - y) * values::narrow_parts() <= values::size(y) + s
            * values::narrow_parts(),
        u >= 0,
        s >= 0,
    ensures
        slight(d - span, a, span, u + s),
{
    let q = values::narrow_parts();
    assert(values::size(z - a) <= values::size(span) + values::size(z - (a + span)));
    assert(values::size(y) <= values::size(z - a) + values::size(y - (z - a)));
    assert(values::size(d - span) <= values::size(d - y) + values::size(y - (z - a))
        + values::size(z - (a + span)));
}

proof fn lemma_drawn(o: Real32, p: Real32, per_px: Real32)
    requires
        per_px.finite(),
        values::narrow(per_px) > 0,
        plane_laws::fair(values::narrow(per_px)),
        drawable(o, p, per_px),
    ensures
        ({
            let at = o.plus_spec(p.times_spec(per_px));
            let back = at.minus_spec(o).over_spec(per_px);
            let u = values::narrow_one() as int;
            let (a, span) = (values::narrow(o) * u, values::narrow(p) * values::narrow(per_px));
            let s = values::narrow(per_px);
            &&& at.finite()
            &&& back.finite()
            &&& slight(values::narrow(at) * u - (a + span), a, span, u)
            &&& slight(values::narrow(back) * s - span, a, span, u + s)
        }),
{
    ratios::lemma_one();
    let u = values::narrow_one() as int;
    let q = values::narrow_parts();
    let most = values::narrow_most();
    let limit = 0x1000_0000_0000_0000 * u;
    let s = values::narrow(per_px);
    let (a, x) = (values::narrow(o), values::narrow(p));
    let span = x * s;
    assert(limit * u <= most * u) by (nonlinear_arith)
        requires
            limit <= most,
            u > 0,
    ;
    values::lemma_narrow_times(p, per_px);
    let t = values::narrow(p.times_spec(per_px));
    let (tu, au) = (t * u, a * u);
    lemma_size_in_units(a, u);
    lemma_size_in_units(t, u);
    assert(values::size(au) <= limit * u) by (nonlinear_arith)
        requires
            values::size(au) == values::size(a) * u,
            values::size(a) <= limit,
            u > 0,
    ;
    let lu = limit * u;
    assert(u * q <= lu) by (nonlinear_arith)
        requires
            lu == limit * u,
            limit >= q,
            u > 0,
    ;
    assert(values::size(tu) <= 2 * lu);
    assert(values::size(t) <= 2 * limit) by (nonlinear_arith)
        requires
            values::size(t) * u <= 2 * (limit * u),
            u > 0,
    ;
    values::lemma_narrow_plus(o, p.times_spec(per_px));
    let at = o.plus_spec(p.times_spec(per_px));
    let z = values::narrow(at);
    lemma_in_units(z, a + t, u, values::size(a + t));
    lemma_size_in_units(a + t, u);
    let zu = z * u;
    assert((a + t) * u == au + tu) by (nonlinear_arith)
        requires
            au == a * u,
            tu == t * u,
    ;
    assert(values::size(zu - (au + tu)) * q <= values::size(au + tu));
    lemma_drawn_off(au, tu, zu, span, u);
    assert((z - a) * u == zu - au) by (nonlinear_arith)
        requires
            au == a * u,
            zu == z * u,
    ;
    assert(values::size(z - a) <= most) by {
        lemma_size_in_units(z - a, u);
        assert(values::size(z - a) <= 8 * limit) by (nonlinear_arith)
            requires
                values::size(z - a) * u <= 8 * (limit * u),
                u > 0,
        ;
    }
    values::lemma_narrow_minus(at, o);
    let y = values::narrow(at.minus_spec(o));
    lemma_in_units(y, z - a, u, values::size(z - a));
    lemma_size_in_units(z - a, u);
    let yu = y * u;
    assert(values::size(yu - (zu - au)) * q <= values::size(zu - au));
    lemma_size_in_units(y, u);
    assert(values::size(yu) <= 8 * lu);
    assert(8 * lu == (8 * limit) * u) by (nonlinear_arith)
        requires
            lu == limit * u,
    ;
    let far = 8 * limit;
    assert(values::size(y) <= far) by (nonlinear_arith)
        requires
            values::size(y) * u <= far * u,
            u > 0,
    ;
    assert(values::size(y) * u <= most * s) by (nonlinear_arith)
        requires
            values::size(y) <= far,
            far == 0x8000_0000_0000_0000 * u,
            u <= s * 0x10_0000,
            most == 0x8000_0000_0000_0000_0000_0000_0000_0000int * u,
            u > 0,
    ;
    values::lemma_narrow_over(at.minus_spec(o), per_px);
    let d = values::narrow(at.minus_spec(o).over_spec(per_px));
    let ds = d * s;
    assert(values::size(ds - yu) * q <= values::size(yu) + s * q);
    lemma_found_off(au, zu, yu, ds, span, u, s);
}

/// A document point is drawn to scale: as far from where the picture starts as
/// it is from the document's corner, at the scale of the view. The pointer over
/// it finds the point again.
pub proof fn a_point_is_drawn_to_scale_and_found_again(view: Viewfinder, p: Point)
    requires
        view.per_px.finite(),
        values::narrow(view.per_px) > 0,
        plane_laws::fair(values::narrow(view.per_px)),
        drawable(view.origin.x, p.x, view.per_px),
        drawable(view.origin.y, p.y, view.per_px),
    ensures
        ({
            let at = view.screen(p);
            let back = view.doc(at);
            let (u, s) = (values::narrow_one() as int, values::narrow(view.per_px));
            let (left, top) = (
                values::narrow(view.origin.x) * u,
                values::narrow(view.origin.y) * u,
            );
            let (across, down) = (values::narrow(p.x) * s, values::narrow(p.y) * s);
            &&& slight(values::narrow(at.x) * u - (left + across), left, across, u)
            &&& slight(values::narrow(at.y) * u - (top + down), top, down, u)
            &&& slight(values::narrow(back.x) * s - across, left, across, u + s)
            &&& slight(values::narrow(back.y) * s - down, top, down, u + s)
        }),
{
    lemma_drawn(view.origin.x, p.x, view.per_px);
    lemma_drawn(view.origin.y, p.y, view.per_px);
}

/// The whole part of a count.
proof fn lemma_truncated(a: Real32, limit: nat)
    requires
        a.finite(),
        values::narrow(a) >= 0,
    ensures
        ({
            let t = rounding::truncated(a.number(), limit);
            let u = values::narrow_one();
            &&& t <= limit
            &&& t * u <= values::narrow(a)
            &&& t < limit ==> values::narrow(a) < (t + 1) * u
        }),
{
    a.lemma_number(ieee::single_format());
    let m = a.number()->mantissa as nat;
    let e = a.number()->exponent;
    let u = values::narrow_one();
    let v = values::narrow(a);
    let k = (e + 149) as nat;
    let p = power2::pow2(k);
    power2::lemma_pow2_pos(k);
    power2::lemma_pow2_pos(149);
    assert(v == m * p || v == -(m * p));
    if a.number()->Finite_negative {
        assert(m * p == 0 && v == 0) by (nonlinear_arith)
            requires
                v == -(m * p),
                v >= 0,
                p > 0,
                m >= 0,
        ;
        assert(0 * u == 0 && 1 * u == u);
    } else {
        let size: nat = if e >= 0 {
            m * power2::pow2(e as nat)
        } else {
            m / power2::pow2((-e) as nat)
        };
        if e >= 0 {
            let g = power2::pow2(e as nat);
            power2::lemma_pow2_adds(e as nat, 149);
            assert(m * p == size * u) by (nonlinear_arith)
                requires
                    size == m * g,
                    p == g * u,
            ;
        } else {
            let g = power2::pow2((-e) as nat);
            power2::lemma_pow2_pos((-e) as nat);
            power2::lemma_pow2_adds((-e) as nat, k);
            assert(size * g <= m < (size + 1) * g) by (nonlinear_arith)
                requires
                    size == m / g,
                    g > 0,
            ;
            assert(size * u <= m * p) by (nonlinear_arith)
                requires
                    size * g <= m,
                    u == g * p,
                    p > 0,
            ;
            assert(m * p < (size + 1) * u) by (nonlinear_arith)
                requires
                    m < (size + 1) * g,
                    u == g * p,
                    p > 0,
            ;
        }
        assert(size * u <= v < (size + 1) * u) by (nonlinear_arith)
            requires
                size * u <= v,
                v == size * u || v < (size + 1) * u,
                u > 0,
        ;
        if size > limit {
            assert(limit * u <= size * u) by (nonlinear_arith)
                requires
                    limit <= size,
                    u > 0,
            ;
        }
    }
}

/// A side of a page has the whole pixels of its points at the resolution:
/// seventy-two points to the inch.
pub proof fn a_page_has_its_pixels(points: Real32, dpi: u32)
    requires
        points.finite(),
        plane_laws::fair(values::narrow(points)),
        dpi >= 1,
        values::narrow(points) * dpi <= 72 * 0x8000_0000 * values::narrow_one(),
    ensures
        ({
            let n = pdf_import::side_px(points, dpi) as int;
            let u = values::narrow_one() as int;
            let exact = values::narrow(points) * dpi;
            &&& (72 * n * u) * values::narrow_parts() <= exact * values::narrow_parts() + 8
                * exact
            &&& exact * values::narrow_parts() - 8 * exact < (72 * (n + 1) * u)
                * values::narrow_parts()
        }),
{
    ratios::lemma_one();
    let u = values::narrow_one() as int;
    let q = values::narrow_parts();
    let most = values::narrow_most();
    let inch = Real32 { bits: 0x4290_0000 };
    let y = values::narrow(inch);
    assert(y == 72 * u && inch.finite()) by {
        power2::lemma2_to64();
        power2::lemma2_to64_rest();
        power2::lemma_pow2_adds(17, 132);
        let (g, p) = (power2::pow2(17), power2::pow2(132));
        assert(0x90_0000 * p == 72 * u) by (nonlinear_arith)
            requires
                u == g * p,
                g == 0x2_0000,
        ;
    }
    let whole = Real32::of_whole(dpi as nat);
    ratios::lemma_whole(dpi as nat);
    let x = values::narrow(whole);
    let n = dpi as int;
    assert(u <= n * u <= 0xffff_ffff * u) by (nonlinear_arith)
        requires
            1 <= n <= 0xffff_ffff,
            u > 0,
    ;
    ratios::lemma_within_two(x, n * u, 1);
    assert(y * q <= x * u && x * u <= most * y) by (nonlinear_arith)
        requires
            y == 72 * u,
            u <= 2 * x,
            x <= 0x2_0000_0000 * u,
            most == 0x8000_0000_0000_0000_0000_0000_0000_0000int * u,
            u == 0x20_0000_0000_0000_0000_0000_0000_0000_0000_0000int,
            q == 0x80_0000,
    ;
    ratios::lemma_quotient(whole, inch);
    let scale = whole.over_spec(inch);
    let s = values::narrow(scale);
    // Seventy-two times the scale is the resolution.
    assert(s * y == (72 * s) * u) by (nonlinear_arith)
        requires
            y == 72 * u,
    ;
    ratios::lemma_cancelled(72 * s, x, u, 1);
    ratios::lemma_chain(72 * s, x, n * u, 1, 1);
    ratios::lemma_within_two(72 * s, n * u, 3);
    let v = values::narrow(points);
    assert(u * q <= v * s) by (nonlinear_arith)
        requires
            u <= v * 0x10_0000,
            u <= 2 * (72 * s),
            u == 0x20_0000_0000_0000_0000_0000_0000_0000_0000_0000int,
            q == 0x80_0000,
    ;
    let exact = v * n;
    assert(v * (72 * s) <= 2 * (exact * u)) by (nonlinear_arith)
        requires
            72 * s <= 2 * (n * u),
            v >= 0,
            exact == v * n,
    ;
    assert(exact * u <= (72 * 0x8000_0000 * u) * u) by (nonlinear_arith)
        requires
            exact <= 72 * 0x8000_0000 * u,
            u > 0,
    ;
    assert(v * s <= v * (72 * s)) by (nonlinear_arith)
        requires
            v >= 0,
            s >= 0,
    ;
    assert(v * s <= most * u) by (nonlinear_arith)
        requires
            v * s <= 2 * ((72 * 0x8000_0000 * u) * u),
            most == 0x8000_0000_0000_0000_0000_0000_0000_0000int * u,
            u > 0,
    ;
    ratios::lemma_product(points, scale);
    let px = points.times_spec(scale);
    let z = values::narrow(px);
    // z u agrees with v s; seventy-two times that with v n u.
    assert(v * s >= 0) by (nonlinear_arith)
        requires
            v >= 0,
            s >= 0,
    ;
    ratios::lemma_scaled(z * u, v * s, 72, 1);
    ratios::lemma_scaled(72 * s, n * u, v, 3);
    assert((v * s) * 72 == (72 * s) * v) by (nonlinear_arith);
    assert((n * u) * v == exact * u) by (nonlinear_arith)
        requires
            exact == v * n,
    ;
    assert(exact >= 0) by (nonlinear_arith)
        requires
            exact == v * n,
            v >= 0,
            n >= 0,
    ;
    assert(exact * u >= 0) by (nonlinear_arith)
        requires
            exact >= 0,
            u >= 0,
    ;
    ratios::lemma_chain((z * u) * 72, (72 * s) * v, exact * u, 1, 3);
    assert((z * u) * 72 == (72 * z) * u) by (nonlinear_arith);
    ratios::lemma_cancelled(72 * z, exact, u, 5);
    ratios::lemma_within_two(72 * z, exact, 5);
    lemma_truncated(px, u32::MAX as nat);
    let t = rounding::truncated(px.number(), u32::MAX as nat) as int;
    if t >= u32::MAX {
        assert(0xffff_ffff * u <= t * u) by (nonlinear_arith)
            requires
                0xffff_ffff <= t,
                u > 0,
        ;
        assert(72 * z * q <= exact * q + 5 * exact);
        assert(false);
    }
    let (low, high) = (t * u, (t + 1) * u);
    assert(low <= z < high);
    assert(72 * t * u == 72 * low && 72 * (t + 1) * u == 72 * high) by (nonlinear_arith)
        requires
            low == t * u,
            high == (t + 1) * u,
    ;
    assert(pdf_import::side_px(points, dpi) == t);
}

/// A preview is drawn as large as its limit allows, at most twice its size, and
/// keeps its shape.
pub proof fn a_preview_is_drawn_to_its_limit(width: u32, height: u32)
    requires
        width >= 1,
        height >= 1,
    ensures
        ({
            let (w, h) = refine_mask::drawn_size(width, height);
            let u = values::narrow_one() as int;
            let side: int = if width >= height {
                width as int
            } else {
                height as int
            };
            let limit: int = if 2 * side <= 256 {
                2 * side
            } else {
                256
            };
            &&& w.finite()
            &&& h.finite()
            &&& ratios::close(values::narrow(w) * side, (limit * u) * width, 10)
            &&& ratios::close(values::narrow(h) * side, (limit * u) * height, 10)
        }),
{
    let side: nat = if width >= height {
        width as nat
    } else {
        height as nat
    };
    lemma_preview(side, width as nat);
    lemma_preview(side, height as nat);
}

proof fn lemma_preview(side: nat, n: nat)
    requires
        1 <= side <= u32::MAX,
        1 <= n <= side,
    ensures
        ({
            let two = Real32 { bits: 0x4000_0000 };
            let fit = Real32::of_whole(256).over_spec(Real32::of_whole(side));
            let part = Real32::of_whole(n).times_spec(
                if two.below(fit) {
                    two
                } else {
                    fit
                },
            );
            let u = values::narrow_one() as int;
            let limit: int = if 2 * side <= 256 {
                (2 * side) as int
            } else {
                256
            };
            &&& part.finite()
            &&& ratios::close(values::narrow(part) * side, (limit * u) * n, 10)
        }),
{
    ratios::lemma_one();
    let u = values::narrow_one() as int;
    let most = values::narrow_most();
    let two = Real32 { bits: 0x4000_0000 };
    let long = Real32::of_whole(256);
    ratios::lemma_whole(256);
    let v = values::narrow(long);
    lemma_scale(long, side);
    lemma_share(long, side, n);
    let fit = long.over_spec(Real32::of_whole(side));
    let (s, x) = (values::narrow(fit), values::narrow(Real32::of_whole(side)));
    ratios::numbers_are_ordered_as_counts(two, fit);
    let whole = Real32::of_whole(n);
    ratios::lemma_whole(n);
    let y = values::narrow(whole);
    assert(u <= n * u <= 0xffff_ffff * u) by (nonlinear_arith)
        requires
            1 <= n <= 0xffff_ffff,
            u > 0,
    ;
    ratios::lemma_within_two(y, n * u, 1);
    if two.below(fit) {
        assert(u * values::narrow_parts() <= y * (2 * u) <= most * u) by (nonlinear_arith)
            requires
                u <= 2 * y,
                y <= 0x2_0000_0000 * u,
                most == 0x8000_0000_0000_0000_0000_0000_0000_0000int * u,
                u == 0x20_0000_0000_0000_0000_0000_0000_0000_0000_0000int,
        ;
        ratios::lemma_product(whole, two);
        let w = values::narrow(whole.times_spec(two));
        assert(y * (2 * u) == (2 * y) * u) by (nonlinear_arith);
        ratios::lemma_cancelled(w, 2 * y, u, 1);
        ratios::lemma_scaled(y, n * u, 2, 1);
        ratios::lemma_chain(w, y * 2, (n * u) * 2, 1, 1);
        ratios::lemma_scaled(w, (n * u) * 2, side as int, 3);
        // The scale is above two, so the side is at most half the limit.
        if 2 * side > 256 {
            assert(129 * u <= side * u) by (nonlinear_arith)
                requires
                    side >= 129,
                    u > 0,
            ;
            lemma_above(s, x, v, u);
        }
        assert(((n * u) * 2) * side == ((2 * side) * u) * n) by (nonlinear_arith);
        assert(((2 * side) * u) * n >= 0) by (nonlinear_arith)
            requires
                side >= 0,
                u >= 0,
                n >= 0,
        ;
        ratios::lemma_looser(w * side, ((2 * side) * u) * n, 3, 10);
    } else if 2 * side < 256 {
        assert(side * u <= 127 * u) by (nonlinear_arith)
            requires
                side <= 127,
                u > 0,
        ;
        lemma_below(s, x, v, u);
    }
    if !two.below(fit) {
        assert((256 * u) * n >= 0) by (nonlinear_arith)
            requires
                u >= 0,
                n >= 0,
        ;
        ratios::lemma_scaled(v, 256 * u, n as int, 1);
        let w = values::narrow(whole.times_spec(fit));
        ratios::lemma_chain(w * side, v * n, (256 * u) * n, 8, 1);
    }
}

proof fn lemma_above(s: int, x: int, v: int, u: int)
    requires
        ratios::close(s * x, v * u, 1),
        ratios::close(v, 256 * u, 1),
        2 * x >= 257 * u,
        u > 0,
    ensures
        s <= 2 * u,
{
    let e = u * u;
    assert(256 * (v * u) <= 0x1_0001 * e && v * u >= 0 && e > 0) by (nonlinear_arith)
        requires
            0 <= v,
            256 * v <= 0x1_0001 * u,
            e == u * u,
            u > 0,
    ;
    if s > 2 * u {
        assert(s * x >= 257 * e) by (nonlinear_arith)
            requires
                s > 2 * u,
                2 * x >= 257 * u,
                u > 0,
                e == u * u,
        ;
    }
}

proof fn lemma_below(s: int, x: int, v: int, u: int)
    requires
        ratios::close(s * x, v * u, 1),
        ratios::close(v, 256 * u, 1),
        s > 0,
        0 < x,
        2 * x <= 255 * u,
        u > 0,
    ensures
        s > 2 * u,
{
    let e = u * u;
    assert(v * u * values::narrow_parts() >= 256 * e * values::narrow_parts() - 256 * e && e > 0)
        by (nonlinear_arith)
        requires
            v * values::narrow_parts() >= 256 * u * values::narrow_parts() - 256 * u,
            e == u * u,
            u > 0,
    ;
    if s <= 2 * u {
        assert(s * x <= 255 * e) by (nonlinear_arith)
            requires
                0 < s <= 2 * u,
                2 * x <= 255 * u,
                u > 0,
                x > 0,
                e == u * u,
        ;
    }
}

} // verus!
