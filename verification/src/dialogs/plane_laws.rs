//! What an edit on the plane promises: a distance is the distance, and a pasted
//! image keeps its proportions. The numbers are single precision, so each
//! statement allows what rounding can move them by.

use crate::dialogs::vanishing_point;
use crate::dialogs::vanishing_point::{VanishingModel, VanishingOp};
use crate::geometry;
use crate::geometry::{Point, Quad};
use crate::ieee::Real32;
use crate::ratios;
use crate::values;
use vstd::arithmetic::power2;
use vstd::prelude::*;

verus! {

/// A length from a millionth to seventeen thousand million.
pub open spec fn fair(v: int) -> bool {
    values::narrow_one() <= v * 0x10_0000 && v <= 0x4_0000_0000 * values::narrow_one()
}

/// The square of the exact distance between two points.
pub open spec fn distance_squared(a: Point, b: Point) -> int {
    let dx = values::narrow(a.x) - values::narrow(b.x);
    let dy = values::narrow(a.y) - values::narrow(b.y);
    dx * dx + dy * dy
}

proof fn lemma_twice_off(a: int, b: int, c: int, u: int)
    requires
        values::size(a - b) * values::narrow_parts() <= b + u * values::narrow_parts(),
        values::size(b - c) * values::narrow_parts() <= 3 * c,
        b <= 2 * c,
    ensures
        values::size(a - c) * values::narrow_parts() <= 5 * c + u * values::narrow_parts(),
{
}

/// The square of a difference, rounded once and squared.
proof fn lemma_square(a: Real32, b: Real32) -> (r: int)
    requires
        a.finite(),
        b.finite(),
        values::size(values::narrow(a) - values::narrow(b)) <= 0x4_0000_0000
            * values::narrow_one(),
    ensures
        ({
            let d = values::narrow(a) - values::narrow(b);
            let x = a.minus_spec(b);
            let u = values::narrow_one() as int;
            let q = values::narrow_parts();
            &&& x.times_spec(x).finite()
            &&& r == values::narrow(x.times_spec(x))
            &&& r >= 0
            &&& values::size(r * u - d * d) * q <= 5 * (d * d) + u * q
            &&& d * d >= 0
        }),
{
    let u = values::narrow_one() as int;
    let q = values::narrow_parts();
    ratios::lemma_one();
    let d = values::narrow(a) - values::narrow(b);
    values::lemma_narrow_minus(a, b);
    let x = a.minus_spec(b);
    let v = values::narrow(x);
    let (sv, sd) = (values::size(v), values::size(d));
    assert(ratios::close(sv, sd, 1));
    ratios::lemma_times(sv, sd, sv, sd, 1, 1);
    assert(sv * sv == v * v && sd * sd == d * d && v * v >= 0) by (nonlinear_arith)
        requires
            sv == values::size(v),
            sd == values::size(d),
    ;
    let most = 0x8_0000_0000 * u;
    assert(sv <= most);
    assert(v * v <= most * most) by (nonlinear_arith)
        requires
            v * v == sv * sv,
            0 <= sv <= most,
    ;
    let limit = values::narrow_most() * u;
    assert(most * most <= limit);
    values::lemma_narrow_times(x, x);
    let r = values::narrow(x.times_spec(x));
    ratios::lemma_within_two(v * v, d * d, 3);
    assert(r >= 0) by {
        crate::ieee::single_format().lemma_bounds();
        let off = r * u - v * v;
        if r < 0 {
            assert(r * u <= -u) by (nonlinear_arith)
                requires
                    r <= -1,
                    u > 0,
            ;
        }
    }
    let (ru, vv, dd) = (r * u, v * v, d * d);
    assert(values::size(ru - vv) * q <= vv + u * q);
    assert(values::size(vv - dd) * q <= 3 * dd);
    lemma_twice_off(ru, vv, dd, u);
    r
}

/// The distance between two points is the distance: its square is the sum of
/// the squares of the differences.
pub proof fn a_distance_is_nearly_exact(a: Point, b: Point)
    requires
        a.finite(),
        b.finite(),
        values::size(values::narrow(a.x) - values::narrow(b.x)) <= 0x4_0000_0000
            * values::narrow_one(),
        values::size(values::narrow(a.y) - values::narrow(b.y)) <= 0x4_0000_0000
            * values::narrow_one(),
        values::narrow_one() * values::narrow_one() <= distance_squared(a, b) * 0x100_0000_0000,
    ensures
        geometry::apart(a, b).finite(),
        values::narrow(geometry::apart(a, b)) > 0,
        ratios::close(
            values::narrow(geometry::apart(a, b)) * values::narrow(geometry::apart(a, b)),
            distance_squared(a, b),
            16,
        ),
{
    let u = values::narrow_one() as int;
    let q = values::narrow_parts();
    ratios::lemma_one();
    let d2 = distance_squared(a, b);
    let x = a.x.minus_spec(b.x);
    let y = a.y.minus_spec(b.y);
    let r = lemma_square(a.x, b.x);
    let s = lemma_square(a.y, b.y);
    let (dx, dy) = (
        values::narrow(a.x) - values::narrow(b.x),
        values::narrow(a.y) - values::narrow(b.y),
    );
    let (xx, yy) = (dx * dx, dy * dy);
    let most = 0x4_0000_0000 * u;
    assert(xx <= most * most && yy <= most * most) by (nonlinear_arith)
        requires
            xx == dx * dx,
            yy == dy * dy,
            values::size(dx) <= most,
            values::size(dy) <= most,
    ;
    let sum = r + s;
    assert(sum * u == r * u + s * u) by (nonlinear_arith)
        requires
            sum == r + s,
    ;
    assert(ratios::close(sum * u, d2, 6));
    ratios::lemma_within_two(sum * u, d2, 6);
    let bound = 0x40_0000_0000_0000_0000int * u;
    assert(most * most * 4 <= bound * u) by (nonlinear_arith)
        requires
            most == 0x4_0000_0000 * u,
            bound == 0x40_0000_0000_0000_0000int * u,
    ;
    assert(sum <= bound) by (nonlinear_arith)
        requires
            sum * u <= bound * u,
            u > 0,
    ;
    ratios::lemma_sum(x.times_spec(x), y.times_spec(y));
    let t = x.times_spec(x).plus_spec(y.times_spec(y));
    let tv = values::narrow(t);
    ratios::lemma_scaled(tv, sum, u, 1);
    ratios::lemma_chain(tv * u, sum * u, d2, 1, 6);
    ratios::lemma_within_two(tv * u, d2, 8);
    assert(tv > 0);
    ratios::a_root_squared_is_the_number(t);
    let root = values::narrow(geometry::apart(a, b));
    ratios::lemma_chain(root * root, tv * u, d2, 2, 8);
    ratios::lemma_looser(root * root, d2, 11, 16);
}

/// The mean of two lengths.
proof fn lemma_mean(a: Real32, b: Real32) -> (r: int)
    requires
        a.finite(),
        b.finite(),
        fair(values::narrow(a)),
        fair(values::narrow(b)),
    ensures
        ({
            let mean = (Real32 { bits: 0x3f00_0000 }).times_spec(a.plus_spec(b));
            let u = values::narrow_one() as int;
            &&& mean.finite()
            &&& r == values::narrow(mean)
            &&& ratios::close(2 * r, values::narrow(a) + values::narrow(b), 3)
            &&& u <= r * 0x40_0000
            &&& r <= 0x10_0000_0000 * u
        }),
{
    let half = Real32 { bits: 0x3f00_0000 };
    let u = values::narrow_one() as int;
    ratios::lemma_one();
    let both = values::narrow(a) + values::narrow(b);
    ratios::lemma_sum(a, b);
    let t = a.plus_spec(b);
    let tv = values::narrow(t);
    ratios::lemma_within_two(tv, both, 1);
    let h = values::narrow(half);
    assert(2 * (h * tv) == u * tv) by (nonlinear_arith)
        requires
            2 * h == u,
    ;
    ratios::lemma_product(half, t);
    let r = values::narrow(half.times_spec(t));
    assert(2 * (r * u) == (2 * r) * u) by (nonlinear_arith);
    assert(u * tv == tv * u) by (nonlinear_arith);
    assert(ratios::close((2 * r) * u, tv * u, 1)) by {
        let (x, y) = (r * u, h * tv);
        assert(values::size(x - y) * values::narrow_parts() <= 1 * y);
        assert(values::size(2 * x - 2 * y) == 2 * values::size(x - y));
    }
    ratios::lemma_cancelled(2 * r, tv, u, 1);
    ratios::lemma_chain(2 * r, tv, both, 1, 1);
    ratios::lemma_within_two(2 * r, both, 3);
    r
}

/// The sides of a plane that runs across it, added up.
pub open spec fn across(plane: Quad) -> int {
    values::narrow(geometry::apart(plane.top_left, plane.top_right)) + values::narrow(
        geometry::apart(plane.bottom_left, plane.bottom_right),
    )
}

/// The sides of a plane that run down it, added up.
pub open spec fn down(plane: Quad) -> int {
    values::narrow(geometry::apart(plane.top_left, plane.bottom_left)) + values::narrow(
        geometry::apart(plane.top_right, plane.bottom_right),
    )
}

/// A plane whose sides have fair lengths.
pub open spec fn fair_plane(plane: Quad) -> bool {
    let sides = seq![
        geometry::apart(plane.top_left, plane.top_right),
        geometry::apart(plane.bottom_left, plane.bottom_right),
        geometry::apart(plane.top_left, plane.bottom_left),
        geometry::apart(plane.top_right, plane.bottom_right),
    ];
    forall|i: int|
        0 <= i < 4 ==> (#[trigger] sides[i]).finite() && fair(values::narrow(sides[i]))
}

proof fn lemma_fair_plane(plane: Quad)
    requires
        fair_plane(plane),
    ensures
        geometry::apart(plane.top_left, plane.top_right).finite(),
        geometry::apart(plane.bottom_left, plane.bottom_right).finite(),
        geometry::apart(plane.top_left, plane.bottom_left).finite(),
        geometry::apart(plane.top_right, plane.bottom_right).finite(),
        fair(values::narrow(geometry::apart(plane.top_left, plane.top_right))),
        fair(values::narrow(geometry::apart(plane.bottom_left, plane.bottom_right))),
        fair(values::narrow(geometry::apart(plane.top_left, plane.bottom_left))),
        fair(values::narrow(geometry::apart(plane.top_right, plane.bottom_right))),
{
    let sides = seq![
        geometry::apart(plane.top_left, plane.top_right),
        geometry::apart(plane.bottom_left, plane.bottom_right),
        geometry::apart(plane.top_left, plane.bottom_left),
        geometry::apart(plane.top_right, plane.bottom_right),
    ];
    assert(sides[0].finite() && sides[1].finite() && sides[2].finite() && sides[3].finite());
}

/// A quotient of two numbers within bounds is within bounds.
proof fn lemma_quotient_bounds(v: int, b: int, a: int, u: int, lift: int, most: int)
    requires
        u > 0,
        lift > 0,
        most > 0,
        b > 0,
        a * u <= 2 * (v * b),
        v * b <= 2 * (a * u),
        2 * b <= lift * a,
        2 * a <= most * b,
    ensures
        u <= v * lift,
        v <= most * u,
{
    // v b lift >= a u lift / 2 >= b u
    assert(u <= v * lift) by (nonlinear_arith)
        requires
            a * u <= 2 * (v * b),
            2 * b <= lift * a,
            b > 0,
            u > 0,
            lift > 0,
    {
        let x = v * b;
        assert((a * u) * lift <= 2 * x * lift);
        assert((2 * b) * u <= (lift * a) * u);
        assert((lift * a) * u == (a * u) * lift);
        assert(2 * (b * u) <= 2 * (x * lift));
        assert(x * lift == (v * lift) * b);
        assert(b * u <= (v * lift) * b);
    }
    assert(v <= most * u) by (nonlinear_arith)
        requires
            v * b <= 2 * (a * u),
            2 * a <= most * b,
            b > 0,
            u > 0,
    {
        assert((2 * a) * u <= (most * b) * u);
        assert(v * b <= (most * u) * b);
    }
}

/// The proportions of a plane: its width over its height.
proof fn lemma_aspect(plane: Quad) -> (r: (int, int))
    requires
        fair_plane(plane),
    ensures
        ({
            let (c, e) = r;
            let u = values::narrow_one() as int;
            let v = values::narrow(vanishing_point::aspect(plane));
            &&& vanishing_point::aspect(plane).finite()
            &&& ratios::close(2 * c, across(plane), 3)
            &&& ratios::close(2 * e, down(plane), 3)
            &&& c > 0
            &&& e > 0
            &&& ratios::close(v * e, c * u, 1)
            &&& u <= v * 0x1000_0000_0000_0000
            &&& v <= 0x1000_0000_0000_0000 * u
        }),
{
    let u = values::narrow_one() as int;
    ratios::lemma_one();
    lemma_fair_plane(plane);
    let half = Real32 { bits: 0x3f00_0000 };
    let (a1, a2) = (
        geometry::apart(plane.top_left, plane.top_right),
        geometry::apart(plane.bottom_left, plane.bottom_right),
    );
    let (b1, b2) = (
        geometry::apart(plane.top_left, plane.bottom_left),
        geometry::apart(plane.top_right, plane.bottom_right),
    );
    let c = lemma_mean(a1, a2);
    let e = lemma_mean(b1, b2);
    let wide = half.times_spec(a1.plus_spec(a2));
    let tall = half.times_spec(b1.plus_spec(b2));
    assert(c > 0 && e > 0);
    ratios::lemma_sign(wide);
    ratios::lemma_sign(tall);
    let most = values::narrow_most() as int;
    assert(c * u <= most * e) by (nonlinear_arith)
        requires
            c <= 0x10_0000_0000 * u,
            u <= e * 0x40_0000,
            most == 0x8000_0000_0000_0000_0000_0000_0000_0000int * u,
            u > 0,
            e > 0,
    {
        assert(c * u <= (0x10_0000_0000 * u) * u);
        assert(u * u <= (e * 0x40_0000) * u);
    }
    ratios::lemma_quotient(wide, tall);
    let v = values::narrow(wide.over_spec(tall));
    assert(c * u >= 0) by (nonlinear_arith)
        requires
            c > 0,
            u > 0,
    ;
    ratios::lemma_within_two(v * e, c * u, 1);
    lemma_quotient_bounds(v, e, c, u, 0x1000_0000_0000_0000, 0x1000_0000_0000_0000);
    (c, e)
}

/// What the steps to the height keep of the proportions.
proof fn lemma_proportions(
    s: int,
    tall: int,
    wide: int,
    ih: int,
    iw: int,
    first: int,
    second: int,
    aspect: int,
    h: int,
    c: int,
    e: int,
    u: int,
)
    requires
        u > 0,
        s > 0,
        ih > 0,
        iw > 0,
        c > 0,
        e > 0,
        h >= 0,
        tall >= 0,
        wide >= 0,
        first >= 0,
        second >= 0,
        aspect >= 0,
        ratios::close(tall, ih * u, 1),
        ratios::close(wide, iw * u, 1),
        ratios::close(first * u, s * tall, 1),
        ratios::close(second * wide, first * u, 1),
        ratios::close(aspect * e, c * u, 1),
        ratios::close(h * u, second * aspect, 1),
    ensures
        ratios::close(h * iw * e, s * ih * c, 12),
{
    let cu = c * u;
    let fu = first * u;
    let st = s * tall;
    assert(cu >= 0 && fu >= 0 && st >= 0) by (nonlinear_arith)
        requires
            cu == c * u,
            fu == first * u,
            st == s * tall,
            c > 0,
            u > 0,
            first >= 0,
            s > 0,
            tall >= 0,
    ;
    ratios::lemma_times(second * wide, fu, aspect * e, cu, 1, 1);
    ratios::lemma_scaled(fu, st, cu, 1);
    assert(st * cu >= 0) by (nonlinear_arith)
        requires
            st >= 0,
            cu >= 0,
    ;
    ratios::lemma_chain((second * wide) * (aspect * e), fu * cu, st * cu, 3, 1);
    let we = wide * e;
    assert(we >= 0) by (nonlinear_arith)
        requires
            we == wide * e,
            wide >= 0,
            e > 0,
    ;
    ratios::lemma_scaled(h * u, second * aspect, we, 1);
    assert((second * aspect) * we == (second * wide) * (aspect * e)) by (nonlinear_arith)
        requires
            we == wide * e,
    ;
    ratios::lemma_chain((h * u) * we, (second * aspect) * we, st * cu, 1, 5);
    let hwe = h * e * wide;
    let stc = s * c * tall;
    assert((h * u) * we == hwe * u) by (nonlinear_arith)
        requires
            we == wide * e,
            hwe == h * e * wide,
    ;
    assert(st * cu == stc * u) by (nonlinear_arith)
        requires
            st == s * tall,
            cu == c * u,
            stc == s * c * tall,
    ;
    ratios::lemma_cancelled(hwe, stc, u, 7);
    // The whole numbers for what stands for them.
    let he = h * e;
    let sc = s * c;
    assert(he >= 0 && sc >= 0 && stc >= 0) by (nonlinear_arith)
        requires
            he == h * e,
            sc == s * c,
            stc == sc * tall,
            h >= 0,
            e > 0,
            s > 0,
            c > 0,
            tall >= 0,
    ;
    let (wu, tu) = (iw * u, ih * u);
    assert(wu >= 0 && tu >= 0) by (nonlinear_arith)
        requires
            wu == iw * u,
            tu == ih * u,
            iw > 0,
            ih > 0,
            u > 0,
    ;
    ratios::lemma_turned(wide, wu, 1);
    ratios::lemma_scaled(wu, wide, he, 2);
    assert(wide * he == hwe) by (nonlinear_arith)
        requires
            hwe == he * wide,
    ;
    ratios::lemma_chain(wu * he, hwe, stc, 2, 7);
    ratios::lemma_scaled(tall, tu, sc, 1);
    assert(tall * sc == stc) by (nonlinear_arith)
        requires
            stc == sc * tall,
    ;
    assert(tu * sc >= 0) by (nonlinear_arith)
        requires
            tu >= 0,
            sc >= 0,
    ;
    ratios::lemma_chain(wu * he, stc, tu * sc, 10, 1);
    let (left, right) = (h * iw * e, s * ih * c);
    assert(wu * he == left * u) by (nonlinear_arith)
        requires
            wu == iw * u,
            he == h * e,
            left == h * iw * e,
    ;
    assert(tu * sc == right * u) by (nonlinear_arith)
        requires
            tu == ih * u,
            sc == s * c,
            right == s * ih * c,
    ;
    ratios::lemma_cancelled(left, right, u, 12);
}

/// Twice the means are the sums of the sides.
proof fn lemma_sides(h: int, s: int, ih: int, iw: int, c: int, e: int, a: int, d: int)
    requires
        h >= 0,
        s > 0,
        ih > 0,
        iw > 0,
        c > 0,
        e > 0,
        a >= 0,
        d >= 0,
        ratios::close(h * iw * e, s * ih * c, 12),
        ratios::close(2 * c, a, 3),
        ratios::close(2 * e, d, 3),
    ensures
        ratios::close(h * (iw * d), s * (ih * a), 24),
        s * (ih * a) >= 0,
{
    let (hw, si) = (h * iw, s * ih);
    assert(hw >= 0 && si >= 0) by (nonlinear_arith)
        requires
            hw == h * iw,
            si == s * ih,
            h >= 0,
            iw > 0,
            s > 0,
            ih > 0,
    ;
    ratios::lemma_scaled(hw * e, si * c, 2, 12);
    assert((hw * e) * 2 == (2 * e) * hw && (si * c) * 2 == (2 * c) * si) by (nonlinear_arith);
    ratios::lemma_turned(2 * e, d, 3);
    ratios::lemma_scaled(d, 2 * e, hw, 4);
    assert((2 * c) * si >= 0 && a * si >= 0) by (nonlinear_arith)
        requires
            c > 0,
            si >= 0,
            a >= 0,
    ;
    ratios::lemma_chain(d * hw, (2 * e) * hw, (2 * c) * si, 4, 12);
    ratios::lemma_scaled(2 * c, a, si, 3);
    ratios::lemma_chain(d * hw, (2 * c) * si, a * si, 17, 3);
    assert(d * hw == h * (iw * d) && a * si == s * (ih * a)) by (nonlinear_arith)
        requires
            hw == h * iw,
            si == s * ih,
    ;
    ratios::lemma_looser(h * (iw * d), s * (ih * a), 21, 24);
}

/// How tall an image is on a plane, for its width there.
pub open spec fn tall_on(plane: Quad, width: Real32, iw: u32, ih: u32) -> Real32 {
    width.times_spec(Real32::of_whole(ih as nat)).over_spec(
        Real32::of_whole(iw as nat),
    ).times_spec(vanishing_point::aspect(plane))
}

/// A width that a paste can have: a millionth of the plane's at least, and no
/// more than the plane's.
pub open spec fn fair_width(width: Real32) -> bool {
    &&& width.finite()
    &&& values::narrow_one() <= values::narrow(width) * 0x10_0000
    &&& values::narrow(width) <= values::narrow_one()
}

proof fn lemma_tall(plane: Quad, width: Real32, iw: u32, ih: u32)
    requires
        fair_plane(plane),
        fair_width(width),
        iw > 0,
        ih > 0,
    ensures
        ({
            let h = values::narrow(tall_on(plane, width, iw, ih));
            &&& tall_on(plane, width, iw, ih).finite()
            &&& h >= 0x4000_0000
            &&& h <= 0x4_0000_0000_0000_0000_0000_0000int * values::narrow_one()
            &&& ratios::close(
                h * (iw * down(plane)),
                values::narrow(width) * (ih * across(plane)),
                24,
            )
            &&& values::narrow(width) * (ih * across(plane)) >= 0
        }),
{
    let u = values::narrow_one() as int;
    let q = values::narrow_parts();
    ratios::lemma_one();
    let most = values::narrow_most() as int;
    lemma_fair_plane(plane);
    let (c, e) = lemma_aspect(plane);
    let v = vanishing_point::aspect(plane);
    let s = values::narrow(width);
    let (tall, wide) = (Real32::of_whole(ih as nat), Real32::of_whole(iw as nat));
    ratios::lemma_whole(ih as nat);
    ratios::lemma_whole(iw as nat);
    let (t, w) = (values::narrow(tall), values::narrow(wide));
    assert(u <= ih * u <= 0xffff_ffff * u && u <= iw * u <= 0xffff_ffff * u) by (nonlinear_arith)
        requires
            1 <= ih <= 0xffff_ffff,
            1 <= iw <= 0xffff_ffff,
            u > 0,
    ;
    ratios::lemma_within_two(t, ih * u, 1);
    ratios::lemma_within_two(w, iw * u, 1);
    // The width times the image's height.
    assert(u * u <= 0x20_0000 * (s * t)) by (nonlinear_arith)
        requires
            u <= s * 0x10_0000,
            u <= 2 * t,
            u > 0,
    {
        assert(u * u <= (s * 0x10_0000) * u);
        assert((s * 0x10_0000) * u <= (s * 0x10_0000) * (2 * t));
    }
    assert(s * t <= (0x2_0000_0000 * u) * u) by (nonlinear_arith)
        requires
            s <= u,
            0 <= t <= 0x2_0000_0000 * u,
            u > 0,
    {
        assert(s * t <= u * t);
        assert(u * t <= u * (0x2_0000_0000 * u));
    }
    ratios::lemma_product(width, tall);
    let first = width.times_spec(tall);
    let x1 = values::narrow(first);
    ratios::lemma_within_two(x1 * u, s * t, 1);
    assert(u <= x1 * 0x40_0000 && x1 <= 0x4_0000_0000 * u) by (nonlinear_arith)
        requires
            u * u <= 0x20_0000 * (s * t),
            s * t <= (0x2_0000_0000 * u) * u,
            x1 * u <= 2 * (s * t),
            s * t <= 2 * (x1 * u),
            u > 0,
    ;
    // Over the image's width.
    assert(x1 * u <= most * w) by (nonlinear_arith)
        requires
            x1 <= 0x4_0000_0000 * u,
            u <= 2 * w,
            most == 0x8000_0000_0000_0000_0000_0000_0000_0000int * u,
            u > 0,
    {
        assert(x1 * u <= (0x4_0000_0000 * u) * u);
        assert(u * u <= (2 * w) * u);
    }
    ratios::lemma_quotient(first, wide);
    let second = first.over_spec(wide);
    let x2 = values::narrow(second);
    assert(x1 * u >= 0) by (nonlinear_arith)
        requires
            x1 > 0,
            u > 0,
    ;
    ratios::lemma_within_two(x2 * w, x1 * u, 1);
    lemma_quotient_bounds(x2, w, x1, u, 0x400_0000_0000_0000, 0x20_0000_0000);
    // Times the plane's proportions.
    let a = values::narrow(v);
    let lift = 0x40_0000_0000_0000_0000_0000_0000_0000int;
    assert(u * u <= lift * (x2 * a)) by (nonlinear_arith)
        requires
            u <= x2 * 0x400_0000_0000_0000,
            u <= a * 0x1000_0000_0000_0000,
            lift == 0x40_0000_0000_0000_0000_0000_0000_0000int,
            u > 0,
    {
        let (x, y) = (x2 * 0x400_0000_0000_0000, a * 0x1000_0000_0000_0000);
        assert(u * u <= x * u);
        assert(x * u <= x * y);
        assert(x * y == lift * (x2 * a));
    }
    let high = 0x2_0000_0000_0000_0000_0000_0000int;
    assert(x2 * a <= (high * u) * u) by (nonlinear_arith)
        requires
            0 <= x2 <= 0x20_0000_0000 * u,
            0 <= a <= 0x1000_0000_0000_0000 * u,
            high == 0x2_0000_0000_0000_0000_0000_0000int,
            u > 0,
    {
        assert(x2 * a <= (0x20_0000_0000 * u) * a);
        assert((0x20_0000_0000 * u) * a <= (0x20_0000_0000 * u) * (0x1000_0000_0000_0000 * u));
    }
    ratios::lemma_product(second, v);
    let h = values::narrow(second.times_spec(v));
    ratios::lemma_within_two(h * u, x2 * a, 1);
    assert(u <= 2 * lift * h && h <= 2 * high * u) by (nonlinear_arith)
        requires
            u * u <= lift * (x2 * a),
            x2 * a <= (high * u) * u,
            h * u <= 2 * (x2 * a),
            x2 * a <= 2 * (h * u),
            u > 0,
            lift > 0,
    {
        assert(lift * (x2 * a) <= lift * (2 * (h * u)));
        assert(lift * (2 * (h * u)) == (2 * lift * h) * u);
    }
    lemma_proportions(s, t, w, ih as int, iw as int, x1, x2, a, h, c, e, u);
    lemma_sides(h, s, ih as int, iw as int, c, e, across(plane), down(plane));
}

/// A length laid down to either side of a point: it is as long as it should be,
/// and the point is its middle.
proof fn lemma_centred(p: Real32, length: Real32)
    requires
        p.finite(),
        length.finite(),
        0 <= values::narrow(p) <= values::narrow_one(),
        0x4000_0000 <= values::narrow(length),
        values::narrow(length) <= 0x4_0000_0000_0000_0000_0000_0000int * values::narrow_one(),
    ensures
        ({
            let half = length.over_spec(Real32 { bits: 0x4000_0000 });
            let low = values::narrow(p.minus_spec(half));
            let high = values::narrow(p.plus_spec(half));
            let (at, long) = (values::narrow(p), values::narrow(length));
            let q = values::narrow_parts();
            &&& p.minus_spec(half).finite()
            &&& p.plus_spec(half).finite()
            &&& values::size(high - low - long) * q <= 2 * at + 3 * long
            &&& values::size(high + low - 2 * at) * q <= 2 * at + 3 * long
        }),
{
    let two = Real32 { bits: 0x4000_0000 };
    let u = values::narrow_one() as int;
    ratios::lemma_one();
    let long = values::narrow(length);
    let most = values::narrow_most() as int;
    assert(most * (2 * u) >= long * u) by (nonlinear_arith)
        requires
            most >= long,
            long > 0,
            u > 0,
    ;
    ratios::lemma_quotient(length, two);
    let half = length.over_spec(two);
    let h = values::narrow(half);
    assert(h * (2 * u) == (2 * h) * u) by (nonlinear_arith);
    ratios::lemma_cancelled(2 * h, long, u, 1);
    ratios::lemma_within_two(2 * h, long, 1);
    values::lemma_narrow_minus(p, half);
    values::lemma_narrow_plus(p, half);
}

/// A pasted image keeps its proportions, is as wide as was asked for, and is
/// centred on the click. Its sides are fractions of the plane's: with those
/// taken by the plane's mean side lengths, its height is to its width as the
/// image's height is to the image's width. Nothing else of the session changes.
pub proof fn a_pasted_image_keeps_its_proportions(
    m: VanishingModel,
    p: Point,
    iw: u32,
    ih: u32,
)
    requires
        vanishing_point::unit(p.x),
        vanishing_point::unit(p.y),
        m.paste == Some((iw, ih)),
        iw > 0,
        ih > 0,
        fair_width(m.paste_size),
        fair_plane(m.plane),
    ensures
        m.pasted(Some(p)).ops.drop_last() == m.ops,
        m.pasted(Some(p)).plane == m.plane,
        match m.pasted(Some(p)).ops.last() {
            VanishingOp::Paste { low, high } => {
                let q = values::narrow_parts();
                let (x, y) = (values::narrow(p.x), values::narrow(p.y));
                let width = values::narrow(high.x) - values::narrow(low.x);
                let height = values::narrow(high.y) - values::narrow(low.y);
                let asked = values::narrow(m.paste_size);
                let (w, h) = (ih * across(m.plane), iw * down(m.plane));
                &&& low.finite()
                &&& high.finite()
                &&& values::size(width - asked) * q <= 4 * (x + asked)
                &&& values::size(values::narrow(high.x) + values::narrow(low.x) - 2 * x) * q <= 4
                    * (x + asked)
                &&& values::size(values::narrow(high.y) + values::narrow(low.y) - 2 * y) * q <= 4
                    * (y + values::size(height))
                &&& values::size(height * h - asked * w) * q <= 32 * (asked * w + y * h)
            },
            _ => false,
        },
{
    ratios::lemma_one();
    ratios::lemma_unit(p.x);
    ratios::lemma_unit(p.y);
    lemma_tall(m.plane, m.paste_size, iw, ih);
    lemma_fair_plane(m.plane);
    let length = tall_on(m.plane, m.paste_size, iw, ih);
    lemma_centred(p.x, m.paste_size);
    lemma_centred(p.y, length);
    assert(m.pasted(Some(p)).ops.drop_last() =~= m.ops);
    let two = Real32 { bits: 0x4000_0000 };
    let half = length.over_spec(two);
    let (low, high) = (values::narrow(p.y.minus_spec(half)), values::narrow(p.y.plus_spec(half)));
    let d = down(m.plane);
    let k = iw * d;
    assert(k >= 0) by (nonlinear_arith)
        requires
            k == iw * d,
            d >= 0,
            iw >= 0,
    ;
    lemma_scaled_height(
        high - low,
        values::narrow(length),
        k,
        values::narrow(m.paste_size) * (ih * across(m.plane)),
        values::narrow(p.y),
    );
}

proof fn lemma_scaled_height(height: int, long: int, k: int, target: int, at: int)
    requires
        k >= 0,
        at >= 0,
        long >= 0,
        target >= 0,
        values::size(height - long) * values::narrow_parts() <= 2 * at + 3 * long,
        ratios::close(long * k, target, 24),
    ensures
        values::size(height * k - target) * values::narrow_parts() <= 32 * (target + at * k),
{
    let q = values::narrow_parts();
    let off = values::size(height - long);
    assert(values::size(height * k - long * k) == off * k) by (nonlinear_arith)
        requires
            off == values::size(height - long),
            k >= 0,
    ;
    assert((off * k) * q <= 2 * (at * k) + 3 * (long * k)) by (nonlinear_arith)
        requires
            off * q <= 2 * at + 3 * long,
            k >= 0,
    ;
    ratios::lemma_within_two(long * k, target, 24);
    assert(at * k >= 0) by (nonlinear_arith)
        requires
            at >= 0,
            k >= 0,
    ;
}

/// A rectangle that lies straight in the picture.
pub open spec fn straight(left: Real32, top: Real32, right: Real32, bottom: Real32) -> Quad {
    Quad {
        top_left: Point { x: left, y: top },
        top_right: Point { x: right, y: top },
        bottom_right: Point { x: right, y: bottom },
        bottom_left: Point { x: left, y: bottom },
    }
}

/// How far apart two coordinates are.
pub open spec fn extent(a: Real32, b: Real32) -> int {
    values::size(values::narrow(a) - values::narrow(b))
}

/// A side that is fair, with room to spare.
pub open spec fn fair_side(v: int) -> bool {
    values::narrow_one() <= v * 0x8_0000 && v <= 0x2_0000_0000 * values::narrow_one()
}

/// The distance along one axis is the difference there.
proof fn lemma_along(a: Point, b: Point, long: int)
    requires
        a.finite(),
        b.finite(),
        fair_side(long),
        ({
            let (dx, dy) = (extent(a.x, b.x), extent(a.y, b.y));
            (dx == long && dy == 0) || (dx == 0 && dy == long)
        }),
    ensures
        geometry::apart(a, b).finite(),
        ratios::close(values::narrow(geometry::apart(a, b)), long, 16),
        fair(values::narrow(geometry::apart(a, b))),
{
    ratios::lemma_one();
    let u = values::narrow_one() as int;
    let dx = values::narrow(a.x) - values::narrow(b.x);
    let dy = values::narrow(a.y) - values::narrow(b.y);
    assert(dx * dx + dy * dy == long * long) by (nonlinear_arith)
        requires
            (values::size(dx) == long && dy == 0) || (dx == 0 && values::size(dy) == long),
    ;
    assert(u * u <= (long * long) * 0x100_0000_0000) by (nonlinear_arith)
        requires
            u <= long * 0x8_0000,
            u > 0,
            long > 0,
    {
        let x = long * 0x8_0000;
        assert(u * u <= x * u);
        assert(x * u <= x * x);
        assert(x * x == (long * long) * 0x40_0000_0000);
    }
    a_distance_is_nearly_exact(a, b);
    let r = values::narrow(geometry::apart(a, b));
    ratios::lemma_unsquared(r, long, 16);
    ratios::lemma_within_two(r, long, 16);
}

proof fn lemma_on_the_rectangle(
    height: int,
    s: int,
    ih: int,
    iw: int,
    a: int,
    d: int,
    w: int,
    h: int,
    at: int,
)
    requires
        s >= 0,
        ih >= 0,
        iw >= 0,
        w >= 0,
        h >= 0,
        at >= 0,
        ratios::close(a, 2 * w, 16),
        ratios::close(d, 2 * h, 16),
        values::size(height * (iw * d) - s * (ih * a)) * values::narrow_parts() <= 32 * (s * (ih * a)
            + at * (iw * d)),
    ensures
        values::size(height * (iw * h) - s * (ih * w)) * values::narrow_parts() <= 160 * (s * (ih
            * w) + at * (iw * h)),
{
    let q = values::narrow_parts();
    let (p, t) = (iw * d, s * (ih * a));
    let (p2, t2) = (iw * (2 * h), s * (ih * (2 * w)));
    ratios::lemma_scaled(d, 2 * h, iw, 16);
    assert(d * iw == p && (2 * h) * iw == p2) by (nonlinear_arith)
        requires
            p == iw * d,
            p2 == iw * (2 * h),
    ;
    ratios::lemma_scaled(a, 2 * w, ih, 16);
    ratios::lemma_scaled(a * ih, (2 * w) * ih, s, 16);
    assert((a * ih) * s == t && ((2 * w) * ih) * s == t2) by (nonlinear_arith)
        requires
            t == s * (ih * a),
            t2 == s * (ih * (2 * w)),
    ;
    assert(p2 >= 0 && t2 >= 0) by (nonlinear_arith)
        requires
            p2 == iw * (2 * h),
            t2 == s * (ih * (2 * w)),
            iw >= 0,
            h >= 0,
            s >= 0,
            ih >= 0,
            w >= 0,
    ;
    ratios::lemma_within_two(p, p2, 16);
    ratios::lemma_within_two(t, t2, 16);
    let (hp, hp2) = (height * p, height * p2);
    let big = values::size(height);
    let off = values::size(p - p2);
    assert(values::size(hp2 - hp) == big * off) by (nonlinear_arith)
        requires
            hp == height * p,
            hp2 == height * p2,
            big == values::size(height),
            off == values::size(p - p2),
    ;
    assert((big * off) * q <= 16 * (big * p2)) by (nonlinear_arith)
        requires
            off * q <= 16 * p2,
            big >= 0,
    ;
    assert(big * p2 <= 2 * (big * p)) by (nonlinear_arith)
        requires
            p2 <= 2 * p,
            big >= 0,
    ;
    assert(big * p == values::size(hp)) by (nonlinear_arith)
        requires
            hp == height * p,
            big == values::size(height),
            p >= 0,
    ;
    assert(at * p >= 0 && at * p2 >= 0 && at * p <= 2 * (at * p2)) by (nonlinear_arith)
        requires
            at >= 0,
            p >= 0,
            p2 >= 0,
            p <= 2 * p2,
    ;
    let (one, two) = (height * (iw * h), s * (ih * w));
    assert(hp2 == 2 * one && t2 == 2 * two && at * p2 == 2 * (at * (iw * h))) by (nonlinear_arith)
        requires
            hp2 == height * p2,
            p2 == iw * (2 * h),
            t2 == s * (ih * (2 * w)),
            one == height * (iw * h),
            two == s * (ih * w),
    ;
}

/// On a plane that lies straight in the picture, a pasted image has its own
/// proportions in pixels: its height there is to its width there as the image's
/// height is to the image's width.
pub proof fn a_paste_on_a_straight_plane_is_not_distorted(
    m: VanishingModel,
    p: Point,
    iw: u32,
    ih: u32,
    left: Real32,
    top: Real32,
    right: Real32,
    bottom: Real32,
)
    requires
        vanishing_point::unit(p.x),
        vanishing_point::unit(p.y),
        m.paste == Some((iw, ih)),
        iw > 0,
        ih > 0,
        fair_width(m.paste_size),
        left.finite() && top.finite() && right.finite() && bottom.finite(),
        m.plane == straight(left, top, right, bottom),
        fair_side(extent(left, right)),
        fair_side(extent(top, bottom)),
    ensures
        match m.pasted(Some(p)).ops.last() {
            VanishingOp::Paste { low, high } => {
                let q = values::narrow_parts();
                let height = values::narrow(high.y) - values::narrow(low.y);
                let asked = values::narrow(m.paste_size);
                let across = asked * (ih * extent(left, right));
                let down = iw * extent(top, bottom);
                values::size(height * down - across) * q <= 160 * (across + values::narrow(p.y)
                    * down)
            },
            _ => false,
        },
{
    ratios::lemma_one();
    let (w, h) = (extent(left, right), extent(top, bottom));
    let plane = m.plane;
    lemma_along(plane.top_left, plane.top_right, w);
    lemma_along(plane.bottom_left, plane.bottom_right, w);
    lemma_along(plane.top_left, plane.bottom_left, h);
    lemma_along(plane.top_right, plane.bottom_right, h);
    ratios::lemma_added(
        values::narrow(geometry::apart(plane.top_left, plane.top_right)),
        w,
        values::narrow(geometry::apart(plane.bottom_left, plane.bottom_right)),
        w,
        16,
    );
    ratios::lemma_added(
        values::narrow(geometry::apart(plane.top_left, plane.bottom_left)),
        h,
        values::narrow(geometry::apart(plane.top_right, plane.bottom_right)),
        h,
        16,
    );
    ratios::lemma_unit(p.y);
    a_pasted_image_keeps_its_proportions(m, p, iw, ih);
    match m.pasted(Some(p)).ops.last() {
        VanishingOp::Paste { low, high } => {
            lemma_on_the_rectangle(
                values::narrow(high.y) - values::narrow(low.y),
                values::narrow(m.paste_size),
                ih as int,
                iw as int,
                across(plane),
                down(plane),
                w,
                h,
                values::narrow(p.y),
            );
        },
        _ => {},
    }
}

/// A place on the plane that is no further from another than rounding puts it.
pub open spec fn same_place(a: Point, x: int, y: int) -> bool {
    let q = values::narrow_parts();
    let u = values::narrow_one();
    &&& a.finite()
    &&& values::size(values::narrow(a.x) - x) * q <= 8 * u
    &&& values::size(values::narrow(a.y) - y) * q <= 8 * u
}

proof fn lemma_dab(source: Real32, first: Real32, to: Real32)
    requires
        vanishing_point::unit(source),
        vanishing_point::unit(first),
        vanishing_point::unit(to),
    ensures
        ({
            let from = to.plus_spec(source.minus_spec(first));
            let exact = values::narrow(to) + values::narrow(source) - values::narrow(first);
            &&& from.finite()
            &&& values::size(values::narrow(from) - exact) * values::narrow_parts() <= 8
                * values::narrow_one()
        }),
{
    ratios::lemma_one();
    ratios::lemma_unit(source);
    ratios::lemma_unit(first);
    ratios::lemma_unit(to);
    values::lemma_narrow_minus(source, first);
    values::lemma_narrow_plus(to, source.minus_spec(first));
}

/// The clone stamp is aligned with its source. The first dab after the source
/// was set takes what lies at the source; every later one takes what lies as far
/// from the source as the dab is from the first.
pub proof fn the_clone_stamp_takes_from_its_source(
    m: VanishingModel,
    source: Point,
    first: Point,
    next: Point,
)
    requires
        vanishing_point::unit(source.x) && vanishing_point::unit(source.y),
        vanishing_point::unit(first.x) && vanishing_point::unit(first.y),
        vanishing_point::unit(next.x) && vanishing_point::unit(next.y),
    ensures
        ({
            let one = m.sourced(Some(source)).cloned(Some(first));
            let two = one.cloned(Some(next));
            &&& one.ops.drop_last() == m.ops
            &&& match one.ops.last() {
                VanishingOp::Clone { from, to, radius } => {
                    &&& to == first
                    &&& radius == m.radius
                    &&& same_place(from, values::narrow(source.x), values::narrow(source.y))
                },
                _ => false,
            }
            &&& two.ops.drop_last() == one.ops
            &&& match two.ops.last() {
                VanishingOp::Clone { from, to, radius } => {
                    &&& to == next
                    &&& radius == m.radius
                    &&& same_place(
                        from,
                        values::narrow(source.x) + values::narrow(next.x) - values::narrow(first.x),
                        values::narrow(source.y) + values::narrow(next.y) - values::narrow(first.y),
                    )
                },
                _ => false,
            }
        }),
{
    lemma_dab(source.x, first.x, first.x);
    lemma_dab(source.y, first.y, first.y);
    lemma_dab(source.x, first.x, next.x);
    lemma_dab(source.y, first.y, next.y);
    let one = m.sourced(Some(source)).cloned(Some(first));
    assert(one.ops.drop_last() =~= m.ops);
    assert(one.cloned(Some(next)).ops.drop_last() =~= one.ops);
}

/// A drag paints its next dab once it has come a quarter of the brush from the
/// last one, and not before; where there is no last one, at once.
pub proof fn dabs_are_a_quarter_of_the_brush_apart(m: VanishingModel, last: Point, p: Point)
    requires
        vanishing_point::unit(p.x) && vanishing_point::unit(p.y),
        m.last_dab == Some(last),
        m.radius.finite(),
        fair(values::narrow(m.radius)),
        geometry::apart(p, last).finite(),
    ensures
        ({
            let (brush, way) = (
                values::narrow(m.radius),
                4 * values::narrow(geometry::apart(p, last)),
            );
            let q = values::narrow_parts();
            &&& m.far_enough(Some(p)) ==> brush * (q - 1) <= way * q
            &&& !m.far_enough(Some(p)) ==> way * q < brush * (q + 1)
        }),
        (VanishingModel { last_dab: None, ..m }).far_enough(Some(p)),
{
    ratios::lemma_one();
    let quarter = Real32 { bits: 0x3e80_0000 };
    let u = values::narrow_one() as int;
    lemma_quarter();
    let r = values::narrow(m.radius);
    let part = values::narrow(quarter);
    assert(4 * (r * part) == r * u) by (nonlinear_arith)
        requires
            4 * part == u,
    ;
    ratios::lemma_product(m.radius, quarter);
    let step = m.radius.times_spec(quarter);
    let s = values::narrow(step);
    let (x, y) = (s * u, r * part);
    assert(values::size(4 * x - 4 * y) == 4 * values::size(x - y));
    assert(4 * x == (4 * s) * u) by (nonlinear_arith)
        requires
            x == s * u,
    ;
    assert(ratios::close((4 * s) * u, r * u, 1));
    ratios::lemma_cancelled(4 * s, r, u, 1);
    ratios::numbers_are_ordered_as_counts(step, geometry::apart(p, last));
}

proof fn lemma_quarter()
    ensures
        4 * values::narrow(Real32 { bits: 0x3e80_0000 }) == values::narrow_one(),
        (Real32 { bits: 0x3e80_0000 }).finite(),
{
    power2::lemma2_to64();
    power2::lemma_pow2_adds(23, 124);
    power2::lemma_pow2_adds(147, 2);
}

} // verus!
