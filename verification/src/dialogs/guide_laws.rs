//! What a guide layout promises: the divisions fill the canvas between its
//! margins, they are equally wide, and the same gutter lies between any two
//! neighbours. Positions are double precision, so each statement allows what
//! rounding can move them by.

use crate::dialogs::new_guide_layout;
use crate::dialogs::new_guide_layout::GuideLayoutSpec;
use crate::guides::{Guide, GuideAxis};
use crate::ieee::Real64;
use crate::values;
use vstd::arithmetic::power2;
use vstd::prelude::*;

verus! {

/// A number far enough from the end of the range for sums of hundreds of them.
pub open spec fn moderate(a: Real64) -> bool {
    a.finite() && values::size(values::wide(a)) * 0x10_0000 <= values::wide_most()
}

/// A length that is no more than what rounding can make of positions between
/// two others: a few parts in 2^52 of them, and a few of the least numbers.
pub open spec fn negligible(length: int, lo: Real64, hi: Real64) -> bool {
    values::size(length) * values::wide_parts() <= 64 * (values::size(values::wide(lo))
        + values::size(values::wide(hi))) + 1024 * values::wide_parts()
}

/// A factor of one in a bound says nothing.
proof fn lemma_cancel(x: int, y: int, one: int, parts: int)
    requires
        one > 0,
        values::size(x * one) * parts <= y * one,
    ensures
        values::size(x) * parts <= y,
{
    assert(values::size(x * one) == values::size(x) * one) by (nonlinear_arith)
        requires
            one > 0,
    ;
    let s = values::size(x);
    assert(s * parts <= y) by (nonlinear_arith)
        requires
            (s * one) * parts <= y * one,
            one > 0,
    ;
}

proof fn lemma_most()
    ensures
        values::wide_most() >= 0x100_0000_0000_0000,
{
    let f = crate::ieee::double_format();
    f.lemma_bounds();
    power2::lemma2_to64();
    power2::lemma_pow2_strictly_increases(32, 2045);
    let p = power2::pow2(2045);
    assert(0x10_0000_0000_0000 * p >= 0x10_0000_0000_0000 * 0x1_0000_0000) by (nonlinear_arith)
        requires
            p >= 0x1_0000_0000,
    ;
}

/// What is left of a span behind the gutters, and its share.
proof fn lemma_share(lo: Real64, hi: Real64, n: nat, gutter: Real64) -> (r: (int, int, int))
    requires
        1 <= n <= 100,
        moderate(lo),
        moderate(hi),
        moderate(gutter),
        values::wide(gutter) >= 0,
    ensures
        ({
            let one = Real64 { bits: 0x3ff0_0000_0000_0000 };
            let count = Real64::of_whole(n);
            let span = hi.minus_spec(lo);
            let taken = count.minus_spec(one).times_spec(gutter);
            let left = span.minus_spec(taken);
            let share = left.over_spec(count);
            let (d, t, l) = r;
            let q = values::wide_parts();
            let exact = values::wide(hi) - values::wide(lo);
            let gutters = (n - 1) * values::wide(gutter);
            &&& share.finite()
            &&& d == values::wide(span)
            &&& t == values::wide(taken)
            &&& l == values::wide(left)
            &&& values::size(d - exact) * q <= values::size(exact)
            &&& values::size(t - gutters) * q <= gutters + q
            &&& values::size(l - (d - t)) * q <= values::size(d - t)
            &&& values::size(values::wide(share) * n - l) * q <= values::size(l) + n * q
            &&& values::wide(share) > 0 ==> l > 0
        }),
{
    let one = Real64 { bits: 0x3ff0_0000_0000_0000 };
    let u = values::wide_one() as int;
    let q = values::wide_parts();
    let most = values::wide_most() as int;
    let count = Real64::of_whole(n);
    lemma_most();
    values::lemma_wide_one();
    values::lemma_wide_whole(n);
    values::lemma_wide_one_less(n);
    values::lemma_wide_minus(hi, lo);
    let span = hi.minus_spec(lo);
    let d = values::wide(span);
    let fewer = count.minus_spec(one);
    let g = values::wide(gutter);
    let gutters = (n - 1) * g;
    assert(0 <= gutters <= 99 * g) by (nonlinear_arith)
        requires
            1 <= n <= 100,
            g >= 0,
            gutters == (n - 1) * g,
    ;
    let k = (n - 1) * u;
    assert(k * g == gutters * u) by (nonlinear_arith)
        requires
            k == (n - 1) * u,
            gutters == (n - 1) * g,
    ;
    assert(0 <= gutters * u <= most * u) by (nonlinear_arith)
        requires
            0 <= gutters <= most,
            u > 0,
    ;
    values::lemma_wide_times(fewer, gutter);
    let taken = fewer.times_spec(gutter);
    let t = values::wide(taken);
    assert(t * u - gutters * u == (t - gutters) * u && gutters * u + u * q == (gutters + q) * u)
        by (nonlinear_arith);
    lemma_cancel(t - gutters, gutters + q, u, q);
    values::lemma_wide_minus(span, taken);
    let left = span.minus_spec(taken);
    let l = values::wide(left);
    let c = n * u;
    assert(c > 0 && values::size(l) * u <= most * c) by (nonlinear_arith)
        requires
            c == n * u,
            n >= 1,
            u > 0,
            0 <= values::size(l) <= most,
    ;
    values::lemma_wide_over(left, count);
    let s = values::wide(left.over_spec(count));
    assert(s * c - l * u == (s * n - l) * u) by (nonlinear_arith)
        requires
            c == n * u,
    ;
    assert(values::size(l * u) == values::size(l) * u) by (nonlinear_arith)
        requires
            u > 0,
    ;
    assert(values::size(l) * u + c * q == (values::size(l) + n * q) * u) by (nonlinear_arith)
        requires
            c == n * u,
    ;
    lemma_cancel(s * n - l, values::size(l) + n * q, u, q);
    (d, t, l)
}

/// Where a division starts and ends.
proof fn lemma_division(lo: Real64, share: Real64, gutter: Real64, i: nat) -> (r: (int, int))
    requires
        i < 100,
        lo.finite(),
        share.finite(),
        gutter.finite(),
        values::wide(share) >= 0,
        values::wide(gutter) >= 0,
        values::size(values::wide(lo)) * 1000 <= values::wide_most(),
        values::wide(share) * 1000 <= values::wide_most(),
        values::wide(gutter) * 1000 <= values::wide_most(),
    ensures
        ({
            let pitch = share.plus_spec(gutter);
            let along = Real64::of_whole(i).times_spec(pitch);
            let start = lo.plus_spec(along);
            let end = start.plus_spec(share);
            let (p, a) = r;
            let q = values::wide_parts();
            let l = values::wide(lo);
            let s = values::wide(share);
            let sum = s + values::wide(gutter);
            &&& start.finite()
            &&& end.finite()
            &&& p == values::wide(pitch)
            &&& a == values::wide(along)
            &&& values::size(p - sum) * q <= sum
            &&& values::size(a - i * p) * q <= values::size(i * p) + q
            &&& values::size(values::wide(start) - (l + a)) * q <= values::size(l + a)
            &&& values::size(values::wide(end) - (values::wide(start) + s)) * q <= values::size(
                values::wide(start) + s,
            )
        }),
{
    let u = values::wide_one() as int;
    let q = values::wide_parts();
    let most = values::wide_most() as int;
    lemma_most();
    values::lemma_wide_one();
    values::lemma_wide_whole(i);
    values::lemma_wide_plus(share, gutter);
    let pitch = share.plus_spec(gutter);
    let p = values::wide(pitch);
    let c = i * u;
    let far = i * p;
    assert(c * p == far * u) by (nonlinear_arith)
        requires
            c == i * u,
            far == i * p,
    ;
    let most_far = 99 * values::size(p);
    assert(values::size(far) <= most_far) by (nonlinear_arith)
        requires
            far == i * p,
            0 <= i <= 99,
            most_far == 99 * values::size(p),
    ;
    assert(values::size(far * u) == values::size(far) * u && values::size(far) * u <= most * u)
        by (nonlinear_arith)
        requires
            u > 0,
            values::size(far) <= most,
    ;
    let step = Real64::of_whole(i);
    values::lemma_wide_times(step, pitch);
    let along = step.times_spec(pitch);
    let a = values::wide(along);
    assert(a * u - far * u == (a - far) * u && values::size(far) * u + u * q == (values::size(far)
        + q) * u) by (nonlinear_arith);
    lemma_cancel(a - far, values::size(far) + q, u, q);
    values::lemma_wide_plus(lo, along);
    values::lemma_wide_plus(lo.plus_spec(along), share);
    (p, a)
}

/// The shares and the gutters make up the span.
proof fn lemma_totals(lo: int, hi: int, g: int, n: int, s: int, d: int, t: int, l: int)
    requires
        1 <= n <= 100,
        g >= 0,
        s > 0,
        l > 0,
        ({
            let q = values::wide_parts();
            &&& values::size(d - (hi - lo)) * q <= values::size(hi - lo)
            &&& values::size(t - (n - 1) * g) * q <= (n - 1) * g + q
            &&& values::size(l - (d - t)) * q <= values::size(d - t)
            &&& values::size(s * n - l) * q <= values::size(l) + n * q
        }),
    ensures
        ({
            let q = values::wide_parts();
            let m = values::size(lo) + values::size(hi);
            &&& 0 <= (n - 1) * g <= 2 * m + 4
            &&& 0 <= s * n <= 2 * m + 300
            &&& s <= s * n
            &&& values::size(s * n + (n - 1) * g - (hi - lo)) * q <= 12 * m + 300 * q
        }),
{
    let a = (n - 1) * g;
    let b = s * n;
    assert(a >= 0 && b >= s) by (nonlinear_arith)
        requires
            a == (n - 1) * g,
            b == s * n,
            n >= 1,
            g >= 0,
            s > 0,
    ;
}

/// A division is where its share and its gutters put it.
proof fn lemma_place(
    m: int,
    lo: int,
    s: int,
    g: int,
    n: int,
    i: int,
    p: int,
    a: int,
    start: int,
    end: int,
)
    requires
        0 <= i < n <= 100,
        g >= 0,
        s > 0,
        0 <= (n - 1) * g <= 2 * m + 4,
        0 <= s * n <= 2 * m + 300,
        values::size(lo) <= m,
        ({
            let q = values::wide_parts();
            &&& values::size(p - (s + g)) * q <= s + g
            &&& values::size(a - i * p) * q <= values::size(i * p) + q
            &&& values::size(start - (lo + a)) * q <= values::size(lo + a)
            &&& values::size(end - (start + s)) * q <= values::size(start + s)
        }),
    ensures
        ({
            let q = values::wide_parts();
            &&& values::size(start - (lo + i * s + i * g)) * q <= 16 * m + 20 * q
            &&& values::size(end - (lo + i * s + i * g + s)) * q <= 24 * m + 30 * q
            &&& values::size(end - start - s) * q <= 8 * m + 620
        }),
{
    let q = values::wide_parts();
    let (c, e, f) = (i * s, i * g, i * p);
    let (most_g, most_s) = ((n - 1) * g, s * n);
    assert(0 <= c && c + s <= most_s && 0 <= e <= most_g) by (nonlinear_arith)
        requires
            c == i * s,
            e == i * g,
            most_g == (n - 1) * g,
            most_s == s * n,
            0 <= i < n,
            g >= 0,
            s > 0,
    ;
    let off = p - (s + g);
    assert(f - (c + e) == i * off) by (nonlinear_arith)
        requires
            c == i * s,
            e == i * g,
            f == i * p,
            off == p - (s + g),
    ;
    assert(values::size(i * off) == i * values::size(off)) by (nonlinear_arith)
        requires
            i >= 0,
    ;
    let w = values::size(off);
    assert((i * w) * q <= c + e) by (nonlinear_arith)
        requires
            w * q <= s + g,
            c == i * s,
            e == i * g,
            i >= 0,
    ;
}

/// How wide a division is, from edge to edge.
pub open spec fn width_of(e: Seq<Real64>, i: int) -> int {
    values::wide(e[2 * i + 1]) - values::wide(e[2 * i])
}

/// How far it is from the end of a division to the start of the next.
pub open spec fn gap_behind(e: Seq<Real64>, i: int) -> int {
    values::wide(e[2 * i + 2]) - values::wide(e[2 * i + 1])
}

/// How many divisions are laid out, where any are.
pub open spec fn divisions(count: int) -> int {
    if count > 100 {
        100
    } else {
        count
    }
}

/// Both edges of a division are finite and where its share and its gutters put
/// them.
proof fn lemma_edges(lo: Real64, hi: Real64, count: int, gutter: Real64, i: int)
    requires
        moderate(lo),
        moderate(hi),
        moderate(gutter),
        new_guide_layout::edges(lo, hi, count, gutter) is Some,
        0 <= i < divisions(count),
    ensures
        ({
            let e = new_guide_layout::edges(lo, hi, count, gutter)->0;
            let share = new_guide_layout::division_size(lo, hi, count, gutter);
            let (l, g, s) = (values::wide(lo), values::wide(gutter), values::wide(share));
            let m = values::size(l) + values::size(values::wide(hi));
            let n = divisions(count);
            let q = values::wide_parts();
            &&& e.len() == 2 * n
            &&& e[2 * i].finite()
            &&& e[2 * i + 1].finite()
            &&& g >= 0
            &&& s > 0
            &&& values::size(values::wide(e[2 * i]) - (l + i * s + i * g)) * q <= 16 * m + 20 * q
            &&& values::size(values::wide(e[2 * i + 1]) - (l + i * s + i * g + s)) * q <= 24 * m + 30
                * q
            &&& values::size(width_of(e, i) - s) * q <= 8 * m + 620
            &&& values::size(s * n + (n - 1) * g - (values::wide(hi) - l)) * q <= 12 * m + 300 * q
        }),
{
    let e = new_guide_layout::edges(lo, hi, count, gutter)->0;
    let n = divisions(count);
    let share = new_guide_layout::division_size(lo, hi, count, gutter);
    values::lemma_sign(gutter);
    let (d, t, l) = lemma_share(lo, hi, n as nat, gutter);
    values::lemma_sign(share);
    let (lv, hv, g, s) = (
        values::wide(lo),
        values::wide(hi),
        values::wide(gutter),
        values::wide(share),
    );
    lemma_totals(lv, hv, g, n, s, d, t, l);
    lemma_most();
    let m = values::size(lv) + values::size(hv);
    let (p, a) = lemma_division(lo, share, gutter, i as nat);
    assert((2 * i) / 2 == i && (2 * i + 1) / 2 == i);
    assert((2 * i) % 2 == 0 && (2 * i + 1) % 2 == 1);
    lemma_place(m, lv, s, g, n, i, p, a, values::wide(e[2 * i]), values::wide(e[2 * i + 1]));
}

/// The divisions of a span fill it: the first starts where it starts and the
/// last ends where it ends; all are equally wide, and wider than nothing; and
/// from the end of each to the start of the next is one gutter. There are as
/// many as were asked for, up to the most the dialog lays out, and each has two
/// edges.
pub proof fn the_divisions_fill_their_span(lo: Real64, hi: Real64, count: int, gutter: Real64)
    requires
        moderate(lo),
        moderate(hi),
        moderate(gutter),
        new_guide_layout::edges(lo, hi, count, gutter) is Some,
    ensures
        ({
            let e = new_guide_layout::edges(lo, hi, count, gutter)->0;
            let n = divisions(count);
            &&& n >= 1
            &&& e.len() == 2 * n
            &&& forall|j: int| 0 <= j < e.len() ==> (#[trigger] e[j]).finite()
            &&& negligible(values::wide(e[0]) - values::wide(lo), lo, hi)
            &&& negligible(values::wide(e.last()) - values::wide(hi), lo, hi)
            &&& forall|i: int|
                0 <= i < n ==> negligible(#[trigger] width_of(e, i) - width_of(e, 0), lo, hi)
            &&& forall|i: int|
                0 <= i < n - 1 ==> negligible(
                    #[trigger] gap_behind(e, i) - values::wide(gutter),
                    lo,
                    hi,
                )
        }),
{
    let e = new_guide_layout::edges(lo, hi, count, gutter)->0;
    let n = divisions(count);
    let share = new_guide_layout::division_size(lo, hi, count, gutter);
    let (g, s) = (values::wide(gutter), values::wide(share));
    lemma_edges(lo, hi, count, gutter, 0);
    assert forall|j: int| 0 <= j < e.len() implies (#[trigger] e[j]).finite() by {
        let i = j / 2;
        lemma_edges(lo, hi, count, gutter, i);
        assert(j == 2 * i || j == 2 * i + 1);
    }
    assert(0 * s == 0 && 0 * g == 0) by (nonlinear_arith);
    assert(negligible(values::wide(e[0]) - values::wide(lo), lo, hi));
    assert(negligible(values::wide(e.last()) - values::wide(hi), lo, hi)) by {
        lemma_edges(lo, hi, count, gutter, n - 1);
        assert((n - 1) * s + s == s * n) by (nonlinear_arith);
        assert(e.last() == e[2 * (n - 1) + 1]);
    }
    assert forall|i: int| 0 <= i < n implies negligible(
        #[trigger] width_of(e, i) - width_of(e, 0),
        lo,
        hi,
    ) by {
        lemma_edges(lo, hi, count, gutter, i);
    }
    assert forall|i: int| 0 <= i < n - 1 implies negligible(
        #[trigger] gap_behind(e, i) - values::wide(gutter),
        lo,
        hi,
    ) by {
        lemma_edges(lo, hi, count, gutter, i);
        lemma_edges(lo, hi, count, gutter, i + 1);
        assert(2 * (i + 1) == 2 * i + 2);
        assert((i + 1) * s == i * s + s && (i + 1) * g == i * g + g) by (nonlinear_arith);
    }
}

/// A layout is refused where the gutters take more than the span, and only
/// there: nothing is laid out for less than one division, for a gutter below
/// nothing, or for what is no number; anything else that leaves room for a
/// division is laid out.
pub proof fn a_layout_is_refused_for_want_of_room(
    lo: Real64,
    hi: Real64,
    count: int,
    gutter: Real64,
)
    requires
        moderate(lo),
        moderate(hi),
        moderate(gutter),
    ensures
        count < 1 ==> new_guide_layout::edges(lo, hi, count, gutter) is None,
        values::wide(gutter) < 0 ==> new_guide_layout::edges(lo, hi, count, gutter) is None,
        ({
            let room = values::wide(hi) - values::wide(lo) - (divisions(count) - 1) * values::wide(
                gutter,
            );
            &&& room < 0 && !negligible(room, lo, hi) ==> new_guide_layout::edges(
                lo,
                hi,
                count,
                gutter,
            ) is None
            &&& room > 0 && !negligible(room, lo, hi) && count >= 1 && values::wide(gutter) >= 0
                ==> new_guide_layout::edges(lo, hi, count, gutter) is Some
        }),
{
    values::lemma_sign(gutter);
    if count >= 1 && values::wide(gutter) >= 0 {
        let n = divisions(count);
        let share = new_guide_layout::division_size(lo, hi, count, gutter);
        let (d, t, l) = lemma_share(lo, hi, n as nat, gutter);
        values::lemma_sign(share);
        lemma_room(
            values::wide(lo),
            values::wide(hi),
            values::wide(gutter),
            n,
            values::wide(share),
            d,
            t,
            l,
        );
    }
}

proof fn lemma_room(lo: int, hi: int, g: int, n: int, s: int, d: int, t: int, l: int)
    requires
        1 <= n <= 100,
        g >= 0,
        s > 0 ==> l > 0,
        ({
            let q = values::wide_parts();
            &&& values::size(d - (hi - lo)) * q <= values::size(hi - lo)
            &&& values::size(t - (n - 1) * g) * q <= (n - 1) * g + q
            &&& values::size(l - (d - t)) * q <= values::size(d - t)
            &&& values::size(s * n - l) * q <= values::size(l) + n * q
        }),
    ensures
        ({
            let q = values::wide_parts();
            let room = hi - lo - (n - 1) * g;
            let bound = 64 * (values::size(lo) + values::size(hi)) + 1024 * q;
            &&& room < 0 && values::size(room) * q > bound ==> s <= 0
            &&& room > 0 && values::size(room) * q > bound ==> s > 0
        }),
{
    let q = values::wide_parts();
    let a = (n - 1) * g;
    let b = s * n;
    let room = hi - lo - a;
    let bound = 64 * (values::size(lo) + values::size(hi)) + 1024 * q;
    assert(a >= 0) by (nonlinear_arith)
        requires
            a == (n - 1) * g,
            n >= 1,
            g >= 0,
    ;
    if room > 0 && room * q > bound && s <= 0 {
        assert(b <= 0) by (nonlinear_arith)
            requires
                b == s * n,
                s <= 0,
                n >= 1,
        ;
        assert(l > 1000);
        assert(false);
    }
}

/// The layout keeps its margins: it starts as far from the left and from the
/// top as the margins say, and ends as far from the right and from the bottom.
/// Without margins it reaches from edge to edge of the canvas.
pub proof fn the_layout_keeps_its_margins(spec: GuideLayoutSpec, canvas: (u32, u32))
    requires
        moderate(spec.margins.right),
        moderate(spec.margins.bottom),
    ensures
        ({
            let (left, right, top, bottom) = spec.inside(canvas);
            let one = values::wide_one();
            let (w, h) = (canvas.0 * one, canvas.1 * one);
            let m = spec.margins;
            if m.enabled {
                &&& left == m.left
                &&& top == m.top
                &&& nearly_adds_up(right, m.right, w)
                &&& nearly_adds_up(bottom, m.bottom, h)
            } else {
                &&& values::wide(left) == 0
                &&& values::wide(top) == 0
                &&& values::wide(right) == w
                &&& values::wide(bottom) == h
            }
        }),
{
    values::lemma_wide_one();
    values::lemma_wide_whole(canvas.0 as nat);
    values::lemma_wide_whole(canvas.1 as nat);
    if spec.margins.enabled {
        lemma_far_edge(canvas.0, spec.margins.right);
        lemma_far_edge(canvas.1, spec.margins.bottom);
    }
}

/// A position and a margin make up a side, to within one part in 2^52 of the
/// position.
pub open spec fn nearly_adds_up(at: Real64, margin: Real64, side: int) -> bool {
    at.finite() && values::size(values::wide(at) + values::wide(margin) - side)
        * values::wide_parts() <= values::size(side - values::wide(margin))
}

proof fn lemma_far_edge(side: u32, margin: Real64)
    requires
        moderate(margin),
    ensures
        nearly_adds_up(
            Real64::of_whole(side as nat).minus_spec(margin),
            margin,
            side * values::wide_one(),
        ),
{
    let whole = Real64::of_whole(side as nat);
    let u = values::wide_one() as int;
    let most = values::wide_most() as int;
    values::lemma_wide_one();
    values::lemma_wide_whole(side as nat);
    // One is far below the greatest power of two.
    let f = crate::ieee::double_format();
    f.lemma_bounds();
    power2::lemma2_to64();
    power2::lemma2_to64_rest();
    power2::lemma_pow2_adds(1074, 971);
    power2::lemma_pow2_strictly_increases(40, 971);
    let p = power2::pow2(971);
    assert(side * u * 0x10 <= most) by (nonlinear_arith)
        requires
            side <= 0xffff_ffff,
            most == 0x10_0000_0000_0000 * (u * p),
            p >= 0x100_0000_0000,
            u > 0,
    ;
    assert(0 <= side * u) by (nonlinear_arith)
        requires
            side >= 0,
            u > 0,
    ;
    values::lemma_wide_minus(whole, margin);
}

/// A guide stands on one of the lines.
pub open spec fn on_a_line(g: Guide, axis: GuideAxis, at: Seq<Real64>) -> bool {
    &&& g.axis == axis
    &&& !g.locked
    &&& exists|k: int| 0 <= k < at.len() && g.doc == (#[trigger] at[k]).narrowed_spec()
}

proof fn lemma_on_lines(placed: Seq<Guide>, axis: GuideAxis, at: Seq<Real64>, i: int)
    requires
        0 <= i < new_guide_layout::all_placed(placed, axis, at).len(),
    ensures
        (i < placed.len() && new_guide_layout::all_placed(placed, axis, at)[i] == placed[i])
            || on_a_line(new_guide_layout::all_placed(placed, axis, at)[i], axis, at),
    decreases at.len(),
{
    if at.len() > 0 {
        let head = at.drop_last();
        let before = new_guide_layout::all_placed(placed, axis, head);
        let after = new_guide_layout::all_placed(placed, axis, at);
        if i < before.len() {
            lemma_on_lines(placed, axis, head, i);
            assert(after[i] == before[i]);
            if on_a_line(before[i], axis, head) {
                let k = choose|k: int|
                    0 <= k < head.len() && before[i].doc == (#[trigger] head[k]).narrowed_spec();
                assert(at[k] == head[k]);
            }
        } else {
            assert(after[i].doc == at[at.len() - 1].narrowed_spec());
        }
    }
}

/// A layout places guides on its lines and nowhere else: every guide stands,
/// unlocked, on an edge of a column or a row or on the line of a margin. It is
/// refused exactly where the margins leave nothing or the divisions have no
/// room.
pub proof fn every_guide_stands_on_a_line(spec: GuideLayoutSpec, canvas: (u32, u32))
    ensures
        ({
            let (left, right, top, bottom) = spec.inside(canvas);
            let columns = GuideLayoutSpec::divided(spec.columns, left, right);
            let rows = GuideLayoutSpec::divided(spec.rows, top, bottom);
            &&& spec.placed(canvas) is Some <==> left.below(right) && top.below(bottom)
                && columns is Some && rows is Some
            &&& spec.placed(canvas) matches Some(placed) ==> forall|i: int|
                #![trigger placed[i]]
                0 <= i < placed.len() ==> {
                    ||| on_a_line(placed[i], GuideAxis::Vertical, columns->0)
                    ||| on_a_line(placed[i], GuideAxis::Horizontal, rows->0)
                    ||| spec.margins.enabled && on_a_line(
                        placed[i],
                        GuideAxis::Vertical,
                        seq![left, right],
                    )
                    ||| spec.margins.enabled && on_a_line(
                        placed[i],
                        GuideAxis::Horizontal,
                        seq![top, bottom],
                    )
                }
        }),
{
    let (left, right, top, bottom) = spec.inside(canvas);
    if spec.placed(canvas) is Some {
        let columns = GuideLayoutSpec::divided(spec.columns, left, right)->0;
        let rows = GuideLayoutSpec::divided(spec.rows, top, bottom)->0;
        let across = spec.margin_lines(left, right);
        let down = spec.margin_lines(top, bottom);
        let first = new_guide_layout::all_placed(Seq::empty(), GuideAxis::Vertical, columns);
        let second = new_guide_layout::all_placed(first, GuideAxis::Horizontal, rows);
        let third = new_guide_layout::all_placed(second, GuideAxis::Vertical, across);
        let placed = spec.placed(canvas)->0;
        assert forall|i: int| #![trigger placed[i]] 0 <= i < placed.len() implies {
            ||| on_a_line(placed[i], GuideAxis::Vertical, columns)
            ||| on_a_line(placed[i], GuideAxis::Horizontal, rows)
            ||| spec.margins.enabled && on_a_line(
                placed[i],
                GuideAxis::Vertical,
                seq![left, right],
            )
            ||| spec.margins.enabled && on_a_line(
                placed[i],
                GuideAxis::Horizontal,
                seq![top, bottom],
            )
        } by {
            lemma_on_lines(third, GuideAxis::Horizontal, down, i);
            if i < third.len() && placed[i] == third[i] {
                lemma_on_lines(second, GuideAxis::Vertical, across, i);
                if i < second.len() && third[i] == second[i] {
                    lemma_on_lines(first, GuideAxis::Horizontal, rows, i);
                    if i < first.len() && second[i] == first[i] {
                        lemma_on_lines(Seq::empty(), GuideAxis::Vertical, columns, i);
                    }
                }
            }
        }
    }
}

} // verus!
