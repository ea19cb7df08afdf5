//! Numbers as whole counts: every finite number is so many of the least
//! positive number of its format, with a sign. Each operation is held against
//! the exact one on these counts.

use crate::accuracy;
use crate::ieee;
use crate::ieee::{Real32, Real64};
use crate::rounding;
use crate::rounding::{Format, Number};
use crate::wholes;
use vstd::arithmetic::power2;
use vstd::prelude::*;

verus! {

/// A count without its sign.
pub open spec fn size(v: int) -> int {
    if v < 0 {
        -v
    } else {
        v
    }
}

/// How many of the least positive number of the format a number is.
pub open spec fn value(f: Format, a: Number) -> int {
    match a {
        Number::Finite { negative, mantissa, exponent } => rounding::in_units(
            negative,
            mantissa as nat,
            exponent as int,
            f.least as int,
        ),
        _ => 0,
    }
}

/// How many of the least positive number one is.
pub open spec fn unity(f: Format) -> nat {
    power2::pow2((-f.least) as nat)
}

/// The greatest power of two of the format.
pub open spec fn limit(f: Format) -> nat {
    f.low() * power2::pow2((f.greatest - f.least) as nat)
}

/// A double precision number as a count.
pub open spec fn wide(a: Real64) -> int {
    value(ieee::double_format(), a.number())
}

/// A single precision number as a count.
pub open spec fn narrow(a: Real32) -> int {
    value(ieee::single_format(), a.number())
}

/// One in double precision.
pub open spec fn wide_one() -> nat {
    unity(ieee::double_format())
}

/// One in single precision.
pub open spec fn narrow_one() -> nat {
    unity(ieee::single_format())
}

/// A rounded count is the exact one to within one part in the format's
/// mantissas, or the exact one was less than a count can show.
pub open spec fn settles(f: Format, rounded: int, exact: int, unit: int) -> bool {
    size(rounded - exact) * f.low() <= size(exact) || 2 * size(rounded - exact) <= unit
}

/// The nearest number to a quotient, as a count: `n / d * 2^x` is `far / wide`
/// of the least number.
proof fn lemma_nearest(f: Format, negative: bool, n: nat, d: nat, x: int, s: nat)
    requires
        f.valid(),
        n > 0,
        d > 0,
        x - f.least + s >= 0,
        n * power2::pow2((x - f.least + s) as nat) <= limit(f) * (d * power2::pow2(s)),
    ensures
        ({
            let r = rounding::nearest(f, negative, n, d, x);
            let far = n * power2::pow2((x - f.least + s) as nat);
            let unit = d * power2::pow2(s);
            let v = size(value(f, r));
            &&& r is Finite
            &&& r.fits(f)
            &&& value(f, r) == if negative {
                -v
            } else {
                v
            }
            &&& far > 0
            &&& unit > 0
            &&& settles(f, v * unit, far as int, unit as int)
            &&& v <= limit(f)
        }),
{
    f.lemma_bounds();
    let low = f.low();
    let k = (x - f.least + s) as nat;
    let far = n * power2::pow2(k);
    let unit = d * power2::pow2(s);
    let base = f.least - s;
    rounding::lemma_scaled_shift(f, n, d, x, k);
    power2::lemma_pow2_pos(s);
    power2::lemma_pow2_pos(k);
    assert(unit > 0) by (nonlinear_arith)
        requires
            unit == d * power2::pow2(s),
            d > 0,
            power2::pow2(s) > 0,
    ;
    let (m, e) = rounding::scaled(f, n, d, x);
    assert((m, e) == rounding::scaled(f, far, d, base));
    // Below the greatest power of two.
    let top = (f.greatest - f.least) as nat;
    power2::lemma_pow2_adds(top, s);
    assert((f.greatest - base) as nat == top + s);
    assert(d * low * power2::pow2(top + s) == limit(f) * unit) by (nonlinear_arith)
        requires
            power2::pow2(top + s) == power2::pow2(top) * power2::pow2(s),
            limit(f) == low * power2::pow2(top),
            unit == d * power2::pow2(s),
    ;
    accuracy::lemma_at_most(f, far, d, base, low, f.greatest as int);
    accuracy::lemma_scaled_range(f, far, d, base);
    accuracy::lemma_nearest_fits(f, negative, n, d, x);
    accuracy::rounding_is_within_half_a_unit(f, far, d, base);
    let r = rounding::nearest(f, negative, n, d, x);
    let up = (e - f.least) as nat;
    let p = power2::pow2(up);
    power2::lemma_pow2_pos(up);
    power2::lemma_pow2_unfold(up + 1);
    power2::lemma_pow2_adds(up, s);
    assert((e - base) as nat == up + s);
    let wide = d * power2::pow2(up + s);
    assert(wide == unit * p) by (nonlinear_arith)
        requires
            wide == d * power2::pow2(up + s),
            power2::pow2(up + s) == p * power2::pow2(s),
            unit == d * power2::pow2(s),
    ;
    let v = m * p;
    assert(m * wide == v * unit) by (nonlinear_arith)
        requires
            wide == unit * p,
            v == m * p,
    ;
    // The count of what is packed.
    if m == 0 {
        assert(0nat * p == 0) by (nonlinear_arith);
        power2::lemma2_to64();
        assert(0nat * power2::pow2(0) == 0);
    } else if m >= f.high() {
        assert(m == f.high());
        assert(low * power2::pow2(up + 1) == m * p) by (nonlinear_arith)
            requires
                power2::pow2(up + 1) == 2 * p,
                m == 2 * low,
        ;
        assert((e + 1 - f.least) as nat == up + 1);
    }
    assert(v >= 0) by (nonlinear_arith)
        requires
            v == m * p,
            m >= 0,
            p > 0,
    ;
    assert(size(value(f, r)) == v);
    // How far off it is.
    if e == f.least {
        power2::lemma2_to64();
        assert(wide == unit) by (nonlinear_arith)
            requires
                wide == unit * p,
                p == 1,
        ;
    } else {
        assert(v * unit >= low * wide) by (nonlinear_arith)
            requires
                wide == unit * p,
                v == m * p,
                m >= low,
                unit > 0,
                p > 0,
        ;
        let off = size(v * unit - far);
        assert(2 * off <= wide);
        assert(2 * (off * low) <= low * wide) by (nonlinear_arith)
            requires
                2 * off <= wide,
                low > 0,
        ;
        assert(off * low >= off) by (nonlinear_arith)
            requires
                low >= 1,
                off >= 0,
        ;
        assert(low * wide <= far + off);
    }
    // And no greater than the greatest power of two.
    if e < f.greatest {
        assert(m * p <= low * power2::pow2(up + 1)) by (nonlinear_arith)
            requires
                power2::pow2(up + 1) == 2 * p,
                m <= 2 * low,
                p > 0,
        ;
        if up + 1 < top {
            power2::lemma_pow2_strictly_increases(up + 1, top);
        }
        assert(low * power2::pow2(up + 1) <= low * power2::pow2(top)) by (nonlinear_arith)
            requires
                power2::pow2(up + 1) <= power2::pow2(top),
        ;
    } else {
        assert(m * p <= low * p) by (nonlinear_arith)
            requires
                m <= low,
                p > 0,
        ;
    }
}

/// A count at a lower base.
proof fn lemma_in_units(f: Format, negative: bool, m: nat, e: int, base: int)
    requires
        f.least <= base <= e,
    ensures
        rounding::in_units(negative, m, e, f.least as int) == rounding::in_units(
            negative,
            m,
            e,
            base,
        ) * power2::pow2((base - f.least) as nat),
{
    let a = (e - base) as nat;
    let b = (base - f.least) as nat;
    power2::lemma_pow2_adds(a, b);
    assert((e - f.least) as nat == a + b);
    let (p, q) = (power2::pow2(a), power2::pow2(b));
    assert(m * (p * q) == (m * p) * q) by (nonlinear_arith);
    assert(-((m * p) as int) * q == -(((m * p) * q) as int)) by (nonlinear_arith);
}

/// A sum is the exact sum, to within one part in the format's mantissas.
pub proof fn a_sum_is_nearly_exact(f: Format, a: Number, b: Number)
    requires
        f.valid(),
        a.fits(f),
        b.fits(f),
        a is Finite,
        b is Finite,
        size(value(f, a) + value(f, b)) <= limit(f),
    ensures
        ({
            let r = rounding::sum(f, a, b);
            let exact = value(f, a) + value(f, b);
            &&& r is Finite
            &&& r.fits(f)
            &&& size(value(f, r) - exact) * f.low() <= size(exact)
            &&& size(value(f, r)) <= limit(f)
        }),
{
    f.lemma_bounds();
    let (e, x) = (a->exponent as int, b->exponent as int);
    let base = if e < x {
        e
    } else {
        x
    };
    let s = rounding::in_units(a.negative(), a->mantissa as nat, e, base) + rounding::in_units(
        b.negative(),
        b->mantissa as nat,
        x,
        base,
    );
    lemma_in_units(f, a.negative(), a->mantissa as nat, e, base);
    lemma_in_units(f, b.negative(), b->mantissa as nat, x, base);
    let q = power2::pow2((base - f.least) as nat);
    let exact = value(f, a) + value(f, b);
    let (sa, sb) = (
        rounding::in_units(a.negative(), a->mantissa as nat, e, base),
        rounding::in_units(b.negative(), b->mantissa as nat, x, base),
    );
    assert(exact == s * q) by (nonlinear_arith)
        requires
            exact == sa * q + sb * q,
            s == sa + sb,
    ;
    power2::lemma_pow2_pos((base - f.least) as nat);
    power2::lemma2_to64();
    if s == 0 {
        assert(0 * q == 0) by (nonlinear_arith);
        assert(0nat * power2::pow2(0) == 0);
        let r = rounding::sum(f, a, b);
        assert(exact == 0 && value(f, r) == 0);
        let low = f.low() as int;
        assert(0 * low == 0) by (nonlinear_arith);
    } else {
        let n = size(s) as nat;
        assert(size(exact) == n * q) by (nonlinear_arith)
            requires
                exact == s * q,
                n == size(s),
                q > 0,
        ;
        assert(1 * power2::pow2(0) == 1);
        assert((base - f.least + 0) as nat == (base - f.least) as nat);
        assert(limit(f) * 1 == limit(f));
        lemma_nearest(f, s < 0, n, 1, base, 0);
        let r = rounding::sum(f, a, b);
        let v = size(value(f, r));
        assert(v * (1 * power2::pow2(0)) == v);
        assert(s < 0 ==> exact < 0) by (nonlinear_arith)
            requires
                exact == s * q,
                q > 0,
        ;
        assert(s > 0 ==> exact > 0) by (nonlinear_arith)
            requires
                exact == s * q,
                q > 0,
        ;
        let off = size(v - size(exact));
        assert(off == size(value(f, r) - exact));
        assert(2 * off <= 1 ==> off * f.low() == 0) by (nonlinear_arith)
            requires
                off >= 0,
        ;
    }
}

/// A sum that the format has is exact.
pub proof fn lemma_exact_sum(f: Format, a: Number, b: Number, c: Number)
    requires
        f.valid(),
        a.fits(f),
        b.fits(f),
        c.fits(f),
        a is Finite,
        b is Finite,
        c is Finite,
        c->mantissa > 0,
        value(f, c) == value(f, a) + value(f, b),
    ensures
        rounding::sum(f, a, b) == c,
{
    let (e, x) = (a->exponent as int, b->exponent as int);
    let base = if e < x {
        e
    } else {
        x
    };
    let sa = rounding::in_units(a.negative(), a->mantissa as nat, e, base);
    let sb = rounding::in_units(b.negative(), b->mantissa as nat, x, base);
    let s = sa + sb;
    lemma_in_units(f, a.negative(), a->mantissa as nat, e, base);
    lemma_in_units(f, b.negative(), b->mantissa as nat, x, base);
    let down = (base - f.least) as nat;
    let q = power2::pow2(down);
    power2::lemma_pow2_pos(down);
    let exact = value(f, c);
    assert(exact == s * q) by (nonlinear_arith)
        requires
            exact == sa * q + sb * q,
            s == sa + sb,
    ;
    let m = c->mantissa as nat;
    let ec = c->exponent as int;
    let up = (ec - f.least) as nat;
    power2::lemma_pow2_pos(up);
    let p = power2::pow2(up);
    assert(m * p > 0) by (nonlinear_arith)
        requires
            m > 0,
            p > 0,
    ;
    assert(s != 0) by (nonlinear_arith)
        requires
            s * q != 0,
    ;
    let n = size(s) as nat;
    assert(size(exact) == n * q && (s < 0 <==> exact < 0)) by (nonlinear_arith)
        requires
            exact == s * q,
            n == size(s),
            q > 0,
            s != 0,
    ;
    if base <= ec {
        let k = (ec - base) as nat;
        power2::lemma_pow2_adds(k, down);
        let w = power2::pow2(k);
        assert(n == m * w) by (nonlinear_arith)
            requires
                n * q == m * (w * q),
                q > 0,
        ;
        rounding::lemma_exact(f, c, k);
    } else {
        let k = (base - ec) as nat;
        power2::lemma_pow2_adds(k, up);
        let w = power2::pow2(k);
        assert(m == n * w) by (nonlinear_arith)
            requires
                n * (w * p) == m * p,
                p > 0,
        ;
        rounding::lemma_scaled_shift(f, n, 1, base, k);
        rounding::lemma_exact(f, c, 0);
        power2::lemma2_to64();
        assert(power2::pow2(0) == 1);
        assert(m * 1 == m);
    }
}

/// A product is the exact product, to within one part in the format's
/// mantissas or half of the least number.
pub proof fn a_product_is_nearly_exact(f: Format, a: Number, b: Number)
    requires
        f.valid(),
        a.fits(f),
        b.fits(f),
        a is Finite,
        b is Finite,
        size(value(f, a) * value(f, b)) <= limit(f) * unity(f),
    ensures
        ({
            let r = rounding::product(f, a, b);
            let exact = value(f, a) * value(f, b);
            &&& r is Finite
            &&& r.fits(f)
            &&& settles(f, value(f, r) * unity(f), exact, unity(f) as int)
            &&& size(value(f, r)) <= limit(f)
        }),
{
    f.lemma_bounds();
    let (m, n) = (a->mantissa as nat, b->mantissa as nat);
    let (e, x) = (a->exponent as int, b->exponent as int);
    let (ea, eb) = ((e - f.least) as nat, (x - f.least) as nat);
    let (pa, pb) = (power2::pow2(ea), power2::pow2(eb));
    let u = unity(f);
    let k = (-f.least) as nat;
    power2::lemma_pow2_adds(ea, eb);
    power2::lemma_pow2_pos(k);
    power2::lemma2_to64();
    let exact = value(f, a) * value(f, b);
    let whole = m * n;
    let far = whole * power2::pow2(ea + eb);
    assert(far == (m * pa) * (n * pb)) by (nonlinear_arith)
        requires
            far == (m * n) * (pa * pb),
    ;
    let (ma, nb) = (m * pa, n * pb);
    assert((-(ma as int)) * nb == -((ma * nb) as int) && ma * (-(nb as int)) == -((ma * nb) as int)
        && (-(ma as int)) * (-(nb as int)) == ma * nb) by (nonlinear_arith);
    assert(far >= 0) by (nonlinear_arith)
        requires
            far == ma * nb,
            ma >= 0,
            nb >= 0,
    ;
    let negative = a.negative() != b.negative();
    assert(exact == if negative {
        -(far as int)
    } else {
        far as int
    });
    let r = rounding::product(f, a, b);
    if whole == 0 {
        assert(far == 0) by (nonlinear_arith)
            requires
                far == whole * power2::pow2(ea + eb),
                whole == 0,
        ;
        assert(0nat * power2::pow2(0) == 0);
        assert(0 * u == 0) by (nonlinear_arith);
    } else {
        assert(whole > 0) by (nonlinear_arith)
            requires
                whole == m * n,
                whole != 0,
                m >= 0,
                n >= 0,
        ;
        assert((e + x - f.least + k) as nat == ea + eb);
        assert(1 * power2::pow2(k) == u);
        lemma_nearest(f, negative, whole, 1, e + x, k);
        let v = size(value(f, r));
        assert((-v) * u == -(v * u)) by (nonlinear_arith);
    }
}

/// A quotient is the exact quotient, to within one part in the format's
/// mantissas or half of the least number.
pub proof fn a_quotient_is_nearly_exact(f: Format, a: Number, b: Number)
    requires
        f.valid(),
        a.fits(f),
        b.fits(f),
        a is Finite,
        b is Finite,
        value(f, b) != 0,
        size(value(f, a)) * unity(f) <= limit(f) * size(value(f, b)),
    ensures
        ({
            let r = rounding::quotient(f, a, b);
            &&& r is Finite
            &&& r.fits(f)
            &&& settles(
                f,
                value(f, r) * value(f, b),
                value(f, a) * unity(f),
                size(value(f, b)),
            )
            &&& size(value(f, r)) <= limit(f)
            &&& value(f, b) > 0 ==> (value(f, r) > 0 ==> value(f, a) > 0)
        }),
{
    f.lemma_bounds();
    let (m, n) = (a->mantissa as nat, b->mantissa as nat);
    let (e, x) = (a->exponent as int, b->exponent as int);
    let (ea, eb) = ((e - f.least) as nat, (x - f.least) as nat);
    let (pa, pb) = (power2::pow2(ea), power2::pow2(eb));
    let u = unity(f);
    let k = (-f.least) as nat;
    power2::lemma_pow2_adds(ea, k);
    power2::lemma_pow2_pos(k);
    power2::lemma_pow2_pos(ea);
    power2::lemma_pow2_pos(eb);
    power2::lemma2_to64();
    if n == 0 {
        assert(0nat * pb == 0) by (nonlinear_arith);
    }
    let (va, vb) = (m * pa, n * pb);
    assert(va >= 0 && vb > 0 && (m > 0 ==> va > 0)) by (nonlinear_arith)
        requires
            va == m * pa,
            vb == n * pb,
            pa > 0,
            pb > 0,
            n > 0,
            m >= 0,
    ;
    let negative = a.negative() != b.negative();
    let r = rounding::quotient(f, a, b);
    if m == 0 {
        assert(0nat * pa == 0) by (nonlinear_arith);
        assert(0nat * power2::pow2(0) == 0);
        assert(0 * value(f, b) == 0 && 0 * u == 0) by (nonlinear_arith);
    } else {
        let far = m * power2::pow2(ea + k);
        assert(far == va * u) by (nonlinear_arith)
            requires
                far == m * (pa * u),
                va == m * pa,
        ;
        assert((e - x - f.least + eb) as nat == ea + k);
        lemma_nearest(f, negative, m, n, e - x, eb);
        let v = size(value(f, r));
        assert((-v) * vb == -(v * vb) && v * (-(vb as int)) == -(v * vb) && (-v) * (-(vb as int))
            == v * vb && (-(va as int)) * u == -(va * u)) by (nonlinear_arith);
    }
}

/// The other sign, as a count.
pub proof fn lemma_negated(f: Format, a: Number)
    requires
        f.valid(),
    ensures
        value(f, rounding::negated(a)) == -value(f, a),
        a.fits(f) ==> rounding::negated(a).fits(f),
        a is Finite ==> rounding::negated(a) is Finite,
{
}

/// A number is what its count says: finite numbers have nothing else.
pub proof fn lemma_sign(a: Real64)
    requires
        a.finite(),
    ensures
        a.number() is Finite,
        a.number().fits(ieee::double_format()),
        a.at_most(Real64 { bits: 0 }) <==> wide(a) <= 0,
        a.below(Real64 { bits: 0 }) <==> wide(a) < 0,
        (Real64 { bits: 0 }).below(a) <==> wide(a) > 0,
{
    a.lemma_number(ieee::double_format());
    let m = a.number()->mantissa as nat;
    let k = (a.number()->exponent + 1074) as nat;
    let p = power2::pow2(k);
    power2::lemma_pow2_pos(k);
    assert((m > 0 ==> m * p > 0) && (m == 0 ==> m * p == 0)) by (nonlinear_arith)
        requires
            p > 0,
    ;
}

/// A whole number within the precision is exact.
pub proof fn lemma_whole(f: Format, n: nat)
    requires
        f.valid(),
        n < f.high(),
    ensures
        rounding::nearest(f, false, n, 1, 0) is Finite,
        rounding::nearest(f, false, n, 1, 0).fits(f),
        value(f, rounding::nearest(f, false, n, 1, 0)) == n * unity(f),
{
    f.lemma_bounds();
    if n == 0 {
        assert(0nat * power2::pow2(0) == 0);
        assert(0 * unity(f) == 0) by (nonlinear_arith);
    } else {
        wholes::lemma_whole(f, n);
        let k = wholes::lift(f, n);
        let rest = (-f.least - k) as nat;
        power2::lemma_pow2_adds(k, rest);
        let (p, q) = (power2::pow2(k), power2::pow2(rest));
        assert((n * p) * q == n * (p * q)) by (nonlinear_arith);
    }
}

/// The greatest power of two in double precision.
pub open spec fn wide_most() -> nat {
    limit(ieee::double_format())
}

/// One part in which a double precision result can be off.
#[verifier::inline]
pub open spec fn wide_parts() -> int {
    0x10_0000_0000_0000
}

proof fn lemma_wide_of(a: Number)
    requires
        a is Finite,
        a.fits(ieee::double_format()),
    ensures
        Real64::of(a).finite(),
        wide(Real64::of(a)) == value(ieee::double_format(), a),
{
    Real64::lemma_of(a, ieee::double_format());
}

proof fn lemma_wide_finite(a: Real64)
    requires
        a.finite(),
    ensures
        a.number() is Finite,
        a.number().fits(ieee::double_format()),
{
    a.lemma_number(ieee::double_format());
}

/// The sum of two double precision numbers is nearly exact.
pub proof fn lemma_wide_plus(a: Real64, b: Real64)
    requires
        a.finite(),
        b.finite(),
        size(wide(a) + wide(b)) <= wide_most(),
    ensures
        a.plus_spec(b).finite(),
        size(wide(a.plus_spec(b)) - (wide(a) + wide(b))) * wide_parts() <= size(wide(a) + wide(b)),
{
    let f = ieee::double_format();
    f.lemma_bounds();
    reveal(Real64::plus_spec);
    lemma_wide_finite(a);
    lemma_wide_finite(b);
    a_sum_is_nearly_exact(f, a.number(), b.number());
    lemma_wide_of(rounding::sum(f, a.number(), b.number()));
}

/// The difference of two double precision numbers is nearly exact.
pub proof fn lemma_wide_minus(a: Real64, b: Real64)
    requires
        a.finite(),
        b.finite(),
        size(wide(a) - wide(b)) <= wide_most(),
    ensures
        a.minus_spec(b).finite(),
        size(wide(a.minus_spec(b)) - (wide(a) - wide(b))) * wide_parts() <= size(wide(a) - wide(b)),
{
    let f = ieee::double_format();
    f.lemma_bounds();
    reveal(Real64::minus_spec);
    lemma_wide_finite(a);
    lemma_wide_finite(b);
    lemma_negated(f, b.number());
    let c = rounding::negated(b.number());
    a_sum_is_nearly_exact(f, a.number(), c);
    lemma_wide_of(rounding::sum(f, a.number(), c));
}

/// The product of two double precision numbers is nearly exact.
pub proof fn lemma_wide_times(a: Real64, b: Real64)
    requires
        a.finite(),
        b.finite(),
        size(wide(a) * wide(b)) <= wide_most() * wide_one(),
    ensures
        a.times_spec(b).finite(),
        settles(
            ieee::double_format(),
            wide(a.times_spec(b)) * wide_one(),
            wide(a) * wide(b),
            wide_one() as int,
        ),
        size(wide(a.times_spec(b)) * wide_one() - wide(a) * wide(b)) * wide_parts() <= size(
            wide(a) * wide(b),
        ) + wide_one() * wide_parts(),
{
    let f = ieee::double_format();
    f.lemma_bounds();
    reveal(Real64::times_spec);
    lemma_wide_finite(a);
    lemma_wide_finite(b);
    a_product_is_nearly_exact(f, a.number(), b.number());
    lemma_wide_of(rounding::product(f, a.number(), b.number()));
}

/// The quotient of two double precision numbers is nearly exact.
pub proof fn lemma_wide_over(a: Real64, b: Real64)
    requires
        a.finite(),
        b.finite(),
        wide(b) != 0,
        size(wide(a)) * wide_one() <= wide_most() * size(wide(b)),
    ensures
        a.over_spec(b).finite(),
        settles(
            ieee::double_format(),
            wide(a.over_spec(b)) * wide(b),
            wide(a) * wide_one(),
            size(wide(b)),
        ),
        size(wide(a.over_spec(b)) * wide(b) - wide(a) * wide_one()) * wide_parts() <= size(
            wide(a) * wide_one(),
        ) + size(wide(b)) * wide_parts(),
        wide(b) > 0 ==> (wide(a.over_spec(b)) > 0 ==> wide(a) > 0),
{
    let f = ieee::double_format();
    f.lemma_bounds();
    reveal(Real64::over_spec);
    lemma_wide_finite(a);
    lemma_wide_finite(b);
    a_quotient_is_nearly_exact(f, a.number(), b.number());
    lemma_wide_of(rounding::quotient(f, a.number(), b.number()));
}

/// The greatest power of two in single precision.
pub open spec fn narrow_most() -> nat {
    limit(ieee::single_format())
}

/// One part in which a single precision result can be off.
#[verifier::inline]
pub open spec fn narrow_parts() -> int {
    0x80_0000
}

proof fn lemma_narrow_of(a: Number)
    requires
        a is Finite,
        a.fits(ieee::single_format()),
    ensures
        Real32::of(a).finite(),
        narrow(Real32::of(a)) == value(ieee::single_format(), a),
{
    Real32::lemma_of(a, ieee::single_format());
}

proof fn lemma_narrow_finite(a: Real32)
    requires
        a.finite(),
    ensures
        a.number() is Finite,
        a.number().fits(ieee::single_format()),
{
    a.lemma_number(ieee::single_format());
}

/// The sum of two single precision numbers is nearly exact.
pub proof fn lemma_narrow_plus(a: Real32, b: Real32)
    requires
        a.finite(),
        b.finite(),
        size(narrow(a) + narrow(b)) <= narrow_most(),
    ensures
        a.plus_spec(b).finite(),
        size(narrow(a.plus_spec(b)) - (narrow(a) + narrow(b))) * narrow_parts() <= size(narrow(a) + narrow(b)),
{
    let f = ieee::single_format();
    f.lemma_bounds();
    reveal(Real32::plus_spec);
    lemma_narrow_finite(a);
    lemma_narrow_finite(b);
    a_sum_is_nearly_exact(f, a.number(), b.number());
    lemma_narrow_of(rounding::sum(f, a.number(), b.number()));
}

/// The difference of two single precision numbers is nearly exact.
pub proof fn lemma_narrow_minus(a: Real32, b: Real32)
    requires
        a.finite(),
        b.finite(),
        size(narrow(a) - narrow(b)) <= narrow_most(),
    ensures
        a.minus_spec(b).finite(),
        size(narrow(a.minus_spec(b)) - (narrow(a) - narrow(b))) * narrow_parts() <= size(narrow(a) - narrow(b)),
{
    let f = ieee::single_format();
    f.lemma_bounds();
    reveal(Real32::minus_spec);
    lemma_narrow_finite(a);
    lemma_narrow_finite(b);
    lemma_negated(f, b.number());
    let c = rounding::negated(b.number());
    a_sum_is_nearly_exact(f, a.number(), c);
    lemma_narrow_of(rounding::sum(f, a.number(), c));
}

/// The product of two single precision numbers is nearly exact.
pub proof fn lemma_narrow_times(a: Real32, b: Real32)
    requires
        a.finite(),
        b.finite(),
        size(narrow(a) * narrow(b)) <= narrow_most() * narrow_one(),
    ensures
        a.times_spec(b).finite(),
        settles(
            ieee::single_format(),
            narrow(a.times_spec(b)) * narrow_one(),
            narrow(a) * narrow(b),
            narrow_one() as int,
        ),
        size(narrow(a.times_spec(b)) * narrow_one() - narrow(a) * narrow(b)) * narrow_parts() <= size(
            narrow(a) * narrow(b),
        ) + narrow_one() * narrow_parts(),
{
    let f = ieee::single_format();
    f.lemma_bounds();
    reveal(Real32::times_spec);
    lemma_narrow_finite(a);
    lemma_narrow_finite(b);
    a_product_is_nearly_exact(f, a.number(), b.number());
    lemma_narrow_of(rounding::product(f, a.number(), b.number()));
}

/// The quotient of two single precision numbers is nearly exact.
pub proof fn lemma_narrow_over(a: Real32, b: Real32)
    requires
        a.finite(),
        b.finite(),
        narrow(b) != 0,
        size(narrow(a)) * narrow_one() <= narrow_most() * size(narrow(b)),
    ensures
        a.over_spec(b).finite(),
        settles(
            ieee::single_format(),
            narrow(a.over_spec(b)) * narrow(b),
            narrow(a) * narrow_one(),
            size(narrow(b)),
        ),
        size(narrow(a.over_spec(b)) * narrow(b) - narrow(a) * narrow_one()) * narrow_parts() <= size(
            narrow(a) * narrow_one(),
        ) + size(narrow(b)) * narrow_parts(),
        narrow(b) > 0 ==> (narrow(a.over_spec(b)) > 0 ==> narrow(a) > 0),
{
    let f = ieee::single_format();
    f.lemma_bounds();
    reveal(Real32::over_spec);
    lemma_narrow_finite(a);
    lemma_narrow_finite(b);
    a_quotient_is_nearly_exact(f, a.number(), b.number());
    lemma_narrow_of(rounding::quotient(f, a.number(), b.number()));
}

/// A whole number below `2^53` is exact in double precision.
pub proof fn lemma_wide_whole(n: nat)
    requires
        n < 0x20_0000_0000_0000,
    ensures
        Real64::of_whole(n).finite(),
        wide(Real64::of_whole(n)) == n * wide_one(),
{
    let f = ieee::double_format();
    f.lemma_bounds();
    reveal(Real64::of_whole);
    lemma_whole(f, n);
    lemma_wide_of(rounding::nearest(f, false, n, 1, 0));
}

/// One is one.
pub proof fn lemma_wide_one()
    ensures
        wide(Real64 { bits: 0x3ff0_0000_0000_0000 }) == wide_one(),
        (Real64 { bits: 0x3ff0_0000_0000_0000 }).finite(),
        wide(Real64 { bits: 0 }) == 0,
        wide_one() > 0,
{
    power2::lemma_pow2_adds(52, 1022);
    power2::lemma_pow2_pos(1074);
    power2::lemma2_to64();
    power2::lemma2_to64_rest();
    assert(0nat * power2::pow2(0) == 0);
}

/// One less than a whole number is exact in double precision.
pub proof fn lemma_wide_one_less(n: nat)
    requires
        1 <= n < 0x20_0000_0000_0000,
    ensures
        Real64::of_whole(n).minus_spec(Real64 { bits: 0x3ff0_0000_0000_0000 }).finite(),
        wide(Real64::of_whole(n).minus_spec(Real64 { bits: 0x3ff0_0000_0000_0000 })) == (n - 1)
            * wide_one(),
{
    let f = ieee::double_format();
    f.lemma_bounds();
    let one = Real64 { bits: 0x3ff0_0000_0000_0000 };
    let a = Real64::of_whole(n);
    let u = wide_one() as int;
    lemma_wide_one();
    lemma_wide_whole(n);
    assert(n * u - u == (n - 1) * u) by (nonlinear_arith);
    reveal(Real64::minus_spec);
    lemma_wide_finite(a);
    lemma_wide_finite(one);
    lemma_negated(f, one.number());
    let b = rounding::negated(one.number());
    if n > 1 {
        lemma_wide_whole((n - 1) as nat);
        let c = Real64::of_whole((n - 1) as nat);
        lemma_wide_finite(c);
        let m = c.number()->mantissa as nat;
        let k = (c.number()->exponent + 1074) as nat;
        if m == 0 {
            assert(0nat * power2::pow2(k) == 0) by (nonlinear_arith);
            assert((n - 1) * u > 0) by (nonlinear_arith)
                requires
                    n > 1,
                    u > 0,
            ;
        }
        lemma_exact_sum(f, a.number(), b, c.number());
        c.lemma_number(f);
    } else {
        assert(0 * u == 0) by (nonlinear_arith);
        a_sum_is_nearly_exact(f, a.number(), b);
        let v = value(f, rounding::sum(f, a.number(), b));
        assert(v == 0) by (nonlinear_arith)
            requires
                size(v) * 0x10_0000_0000_0000 <= 0,
        ;
        lemma_wide_of(rounding::sum(f, a.number(), b));
    }
}

/// A whole number in single precision is nearly exact.
pub proof fn lemma_narrow_whole(n: nat)
    requires
        n > 0,
        n * narrow_one() <= narrow_most(),
    ensures
        Real32::of_whole(n).finite(),
        size(narrow(Real32::of_whole(n)) - n * narrow_one()) * narrow_parts() <= n * narrow_one(),
{
    let f = ieee::single_format();
    f.lemma_bounds();
    reveal(Real32::of_whole);
    power2::lemma2_to64();
    assert(1 * power2::pow2(0) == 1);
    assert(limit(f) * 1 == limit(f));
    lemma_nearest(f, false, n, 1, 0, 0);
    let r = rounding::nearest(f, false, n, 1, 0);
    lemma_narrow_of(r);
    let v = value(f, r);
    assert(v * (1 * power2::pow2(0)) == v);
    let off = size(v - n * narrow_one());
    assert(2 * off <= 1 ==> off * f.low() == 0) by (nonlinear_arith)
        requires
            off >= 0,
    ;
}

} // verus!
