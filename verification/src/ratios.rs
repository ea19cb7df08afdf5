//! How nearly two counts agree: chains of single precision operations against
//! the exact ones.

use crate::ieee;
use crate::ieee::Real32;
use crate::roots;
use crate::rounding;
use crate::values;
use vstd::arithmetic::power2;
use vstd::prelude::*;

verus! {

/// The two counts differ by at most `k` parts in 2^23 of the second.
pub open spec fn close(a: int, b: int, k: int) -> bool {
    values::size(a - b) * values::narrow_parts() <= k * b
}

/// A looser bound holds too.
pub proof fn lemma_looser(a: int, b: int, k: int, j: int)
    requires
        close(a, b, k),
        k <= j,
        b >= 0,
    ensures
        close(a, b, j),
{
    assert(k * b <= j * b) by (nonlinear_arith)
        requires
            k <= j,
            b >= 0,
    ;
}

/// What agrees with what agrees, agrees.
pub proof fn lemma_chain(a: int, b: int, c: int, j: int, k: int)
    requires
        close(a, b, j),
        close(b, c, k),
        0 <= j <= 1000,
        0 <= k <= 1000,
        c >= 0,
    ensures
        close(a, c, j + k + 1),
{
    let q = values::narrow_parts();
    let x = values::size(a - b);
    let y = values::size(b - c);
    // x q q <= j b q <= j (c q + k c)
    assert((j * b) * q <= j * (c * q + k * c)) by (nonlinear_arith)
        requires
            b * q <= c * q + k * c,
            j >= 0,
    ;
    let jk = j * k;
    assert(0 <= jk <= 1_000_000) by (nonlinear_arith)
        requires
            0 <= j <= 1000,
            0 <= k <= 1000,
            jk == j * k,
    ;
    assert(j * (c * q + k * c) == (j * c) * q + jk * c) by (nonlinear_arith)
        requires
            jk == j * k,
    ;
    assert(jk * c <= q * c) by (nonlinear_arith)
        requires
            jk <= q,
            c >= 0,
    ;
    assert((x * q) * q <= (j * b) * q) by (nonlinear_arith)
        requires
            x * q <= j * b,
            q > 0,
    ;
    let jc = j * c;
    assert(x * q <= jc + c) by (nonlinear_arith)
        requires
            (x * q) * q <= jc * q + q * c,
            q > 0,
    ;
    assert((j + k + 1) * c == jc + k * c + c) by (nonlinear_arith)
        requires
            jc == j * c,
    ;
}

/// Products agree where their factors do.
pub proof fn lemma_times(a: int, b: int, c: int, d: int, j: int, k: int)
    requires
        close(a, b, j),
        close(c, d, k),
        0 <= j <= 1000,
        0 <= k <= 1000,
        b >= 0,
        d >= 0,
    ensures
        close(a * c, b * d, j + k + 1),
        b * d >= 0,
{
    let q = values::narrow_parts();
    lemma_scaled(c, d, b, k);
    let x = values::size(a - b);
    let s = values::size(c);
    // a c - b c is at most x s, and s at most d + k d / q.
    assert(values::size(a * c - b * c) == x * s) by (nonlinear_arith)
        requires
            x == values::size(a - b),
            s == values::size(c),
    ;
    assert(b * d >= 0) by (nonlinear_arith)
        requires
            b >= 0,
            d >= 0,
    ;
    let kd = k * d;
    assert(kd >= 0) by (nonlinear_arith)
        requires
            kd == k * d,
            k >= 0,
            d >= 0,
    ;
    assert(s * q <= d * q + kd);
    assert((x * s) * q <= (j * b) * s) by (nonlinear_arith)
        requires
            x * q <= j * b,
            s >= 0,
    ;
    let jb = j * b;
    assert(jb >= 0) by (nonlinear_arith)
        requires
            jb == j * b,
            j >= 0,
            b >= 0,
    ;
    assert((jb * s) * q <= jb * (d * q + kd)) by (nonlinear_arith)
        requires
            s * q <= d * q + kd,
            jb >= 0,
    ;
    let bd = b * d;
    let jk = j * k;
    assert(0 <= jk <= 1_000_000) by (nonlinear_arith)
        requires
            0 <= j <= 1000,
            0 <= k <= 1000,
            jk == j * k,
    ;
    assert(jb * d == j * bd) by (nonlinear_arith)
        requires
            jb == j * b,
            bd == b * d,
    ;
    assert(jb * kd == jk * bd) by (nonlinear_arith)
        requires
            jb == j * b,
            kd == k * d,
            bd == b * d,
            jk == j * k,
    ;
    assert(jb * (d * q + kd) == (jb * d) * q + jb * kd) by (nonlinear_arith);
    assert(jk * bd <= q * bd) by (nonlinear_arith)
        requires
            jk <= q,
            bd >= 0,
    ;
    let jbd = j * bd;
    assert(jb * s <= jbd + bd) by (nonlinear_arith)
        requires
            (jb * s) * q <= jbd * q + q * bd,
            q > 0,
    ;
    assert(c * b == b * c && d * b == bd) by (nonlinear_arith)
        requires
            bd == b * d,
    ;
    assert((j + k + 1) * bd == jbd + k * bd + bd) by (nonlinear_arith)
        requires
            jbd == j * bd,
    ;
    let (w, z) = (a * c - b * c, b * c - bd);
    assert(values::size(a * c - bd) <= values::size(w) + values::size(z));
}

/// A common factor says nothing.
pub proof fn lemma_scaled(a: int, b: int, c: int, k: int)
    requires
        close(a, b, k),
        c >= 0,
    ensures
        close(a * c, b * c, k),
{
    let q = values::narrow_parts();
    let x = values::size(a - b);
    assert(values::size(a * c - b * c) == x * c) by (nonlinear_arith)
        requires
            c >= 0,
            x == values::size(a - b),
    ;
    assert((x * c) * q <= k * (b * c)) by (nonlinear_arith)
        requires
            x * q <= k * b,
            c >= 0,
    ;
}

/// A common factor can be left out.
pub proof fn lemma_cancelled(a: int, b: int, c: int, k: int)
    requires
        close(a * c, b * c, k),
        c > 0,
    ensures
        close(a, b, k),
{
    let q = values::narrow_parts();
    let x = values::size(a - b);
    assert(values::size(a * c - b * c) == x * c) by (nonlinear_arith)
        requires
            c > 0,
            x == values::size(a - b),
    ;
    assert(x * q <= k * b) by (nonlinear_arith)
        requires
            (x * c) * q <= k * (b * c),
            c > 0,
    ;
}

/// Agreeing goes both ways, nearly.
pub proof fn lemma_turned(a: int, b: int, k: int)
    requires
        close(a, b, k),
        0 <= k <= 1000,
        b >= 0,
    ensures
        close(b, a, k + 1),
        a >= 0,
{
    let q = values::narrow_parts();
    let x = values::size(a - b);
    let ka = k * a;
    // x q <= k b <= k a + k x, and k x is at most a.
    assert(k * b <= ka + k * x) by (nonlinear_arith)
        requires
            b <= a + x,
            k >= 0,
            ka == k * a,
    ;
    assert(k * x <= 1000 * x) by (nonlinear_arith)
        requires
            k <= 1000,
            x >= 0,
    ;
    assert(k * b <= 1000 * b) by (nonlinear_arith)
        requires
            k <= 1000,
            b >= 0,
    ;
    assert((k + 1) * a == ka + a) by (nonlinear_arith)
        requires
            ka == k * a,
    ;
}

/// Sums agree where their parts do.
pub proof fn lemma_added(a: int, b: int, c: int, d: int, k: int)
    requires
        close(a, b, k),
        close(c, d, k),
    ensures
        close(a + c, b + d, k),
{
    assert(k * (b + d) == k * b + k * d) by (nonlinear_arith);
}

/// Numbers agree where their squares do.
pub proof fn lemma_unsquared(r: int, x: int, k: int)
    requires
        close(r * r, x * x, k),
        r >= 0,
        x > 0,
    ensures
        close(r, x, k),
{
    let q = values::narrow_parts();
    let off = values::size(r - x);
    assert(values::size(r * r - x * x) == off * (r + x)) by (nonlinear_arith)
        requires
            off == values::size(r - x),
            r >= 0,
            x > 0,
    ;
    assert(off * x <= off * (r + x)) by (nonlinear_arith)
        requires
            off >= 0,
            r >= 0,
    ;
    assert(off * q <= k * x) by (nonlinear_arith)
        requires
            (off * x) * q <= k * (x * x),
            x > 0,
    ;
}

/// One in single precision.
pub proof fn lemma_one()
    ensures
        values::narrow_one() == 0x20_0000_0000_0000_0000_0000_0000_0000_0000_0000int,
        values::narrow_most() == 0x8000_0000_0000_0000_0000_0000_0000_0000int
            * values::narrow_one(),
        values::narrow(Real32 { bits: 0x3f80_0000 }) == values::narrow_one(),
        values::narrow(Real32 { bits: 0x4000_0000 }) == 2 * values::narrow_one(),
        2 * values::narrow(Real32 { bits: 0x3f00_0000 }) == values::narrow_one(),
        values::narrow(Real32 { bits: 0 }) == 0,
{
    power2::lemma2_to64();
    power2::lemma2_to64_rest();
    let f = ieee::single_format();
    f.lemma_bounds();
    power2::lemma_pow2_adds(64, 64);
    power2::lemma_pow2_adds(128, 21);
    power2::lemma_pow2_adds(23, 126);
    power2::lemma_pow2_adds(23, 127);
    power2::lemma_pow2_adds(23, 125);
    power2::lemma_pow2_unfold(126);
    power2::lemma_pow2_unfold(127);
    power2::lemma_pow2_adds(149, 104);
    power2::lemma_pow2_adds(64, 40);
    let u = power2::pow2(149);
    let p = power2::pow2(104);
    assert(p == 0x100_0000_0000_0000_0000_0000_0000int);
    assert(0x80_0000 * (u * p) == 0x8000_0000_0000_0000_0000_0000_0000_0000int * u)
        by (nonlinear_arith)
        requires
            p == 0x100_0000_0000_0000_0000_0000_0000int,
    ;
    assert(0nat * power2::pow2(0) == 0);
}

/// A product with room to spare agrees with the exact one.
pub proof fn lemma_product(a: Real32, b: Real32)
    requires
        a.finite(),
        b.finite(),
        values::narrow_one() * values::narrow_parts() <= values::narrow(a) * values::narrow(b)
            <= values::narrow_most() * values::narrow_one(),
    ensures
        a.times_spec(b).finite(),
        close(
            values::narrow(a.times_spec(b)) * values::narrow_one(),
            values::narrow(a) * values::narrow(b),
            1,
        ),
{
    ieee::single_format().lemma_bounds();
    lemma_one();
    values::lemma_narrow_times(a, b);
}

/// A quotient with room to spare agrees with the exact one.
pub proof fn lemma_quotient(a: Real32, b: Real32)
    requires
        a.finite(),
        b.finite(),
        values::narrow(b) > 0,
        values::narrow(b) * values::narrow_parts() <= values::narrow(a) * values::narrow_one()
            <= values::narrow_most() * values::narrow(b),
    ensures
        a.over_spec(b).finite(),
        close(
            values::narrow(a.over_spec(b)) * values::narrow(b),
            values::narrow(a) * values::narrow_one(),
            1,
        ),
{
    ieee::single_format().lemma_bounds();
    lemma_one();
    let (x, u) = (values::narrow(a), values::narrow_one() as int);
    assert(values::size(x * u) == values::size(x) * u) by (nonlinear_arith)
        requires
            u > 0,
    ;
    assert(x > 0) by (nonlinear_arith)
        requires
            x * u > 0,
            u > 0,
    ;
    values::lemma_narrow_over(a, b);
}

/// A sum of numbers that are not negative agrees with the exact one.
pub proof fn lemma_sum(a: Real32, b: Real32)
    requires
        a.finite(),
        b.finite(),
        0 <= values::narrow(a),
        0 <= values::narrow(b),
        values::narrow(a) + values::narrow(b) <= values::narrow_most(),
    ensures
        a.plus_spec(b).finite(),
        close(values::narrow(a.plus_spec(b)), values::narrow(a) + values::narrow(b), 1),
{
    values::lemma_narrow_plus(a, b);
}

/// A whole number of 32 bits agrees with itself in single precision.
pub proof fn lemma_whole(n: nat)
    requires
        1 <= n <= u32::MAX,
    ensures
        Real32::of_whole(n).finite(),
        close(values::narrow(Real32::of_whole(n)), (n * values::narrow_one()) as int, 1),
{
    lemma_one();
    let u = values::narrow_one() as int;
    assert(n * u <= 0x8000_0000_0000_0000_0000_0000_0000_0000int * u) by (nonlinear_arith)
        requires
            n <= 0xffff_ffff,
            u >= 0,
    ;
    values::lemma_narrow_whole(n);
}

/// An exponent made even, and digits enough for a root of full precision.
proof fn lemma_rootable(n: nat, x: int)
    requires
        n > 0,
        n < 0x8000_0000_0000 || (n < 0x1_0000_0000_0000 && x % 2 == 0),
    ensures
        ({
            let (k, y) = roots::rootable(n, x);
            &&& 0x4000_0000_0000 <= k < 0x1_0000_0000_0000
            &&& y % 2 == 0
            &&& y <= x
            &&& k == n * power2::pow2((x - y) as nat)
        }),
    decreases
            if n < 0x4000_0000_0000 {
                0x4000_0000_0000 - n + 2
            } else {
                x % 2
            },
{
    power2::lemma2_to64();
    if n < 0x4000_0000_0000 || x % 2 != 0 {
        lemma_rootable(2 * n, x - 1);
        let (k, y) = roots::rootable(2 * n, x - 1);
        let g = (x - 1 - y) as nat;
        power2::lemma_pow2_unfold(g + 1);
        assert((x - y) as nat == g + 1);
        let p = power2::pow2(g);
        assert((2 * n) * p == n * (2 * p)) by (nonlinear_arith);
    } else {
        assert(n * 1 == n);
    }
}

/// The square of a square root agrees with the number.
pub proof fn a_root_squared_is_the_number(a: Real32)
    requires
        a.finite(),
        values::narrow(a) > 0,
    ensures
        a.root_spec().finite(),
        values::narrow(a.root_spec()) > 0,
        close(
            values::narrow(a.root_spec()) * values::narrow(a.root_spec()),
            values::narrow(a) * values::narrow_one(),
            2,
        ),
{
    let f = ieee::single_format();
    f.lemma_bounds();
    a.lemma_number(f);
    reveal(Real32::root_spec);
    let mantissa = a.number()->mantissa as nat;
    let exponent = a.number()->exponent as int;
    let lifted = (exponent + 149) as nat;
    if mantissa == 0 {
        assert(0nat * power2::pow2(lifted) == 0) by (nonlinear_arith);
    }
    power2::lemma_pow2_pos(lifted);
    lemma_rootable(mantissa, exponent);
    let (n, y) = roots::rootable(mantissa, exponent);
    let g = (exponent - y) as nat;
    power2::lemma2_to64();
    power2::lemma2_to64_rest();
    if g >= 48 {
        if g > 48 {
            power2::lemma_pow2_strictly_increases(48, g);
        }
        let p = power2::pow2(g);
        assert(mantissa * p >= p) by (nonlinear_arith)
            requires
                mantissa >= 1,
                p >= 0,
        ;
    }
    // The nearest whole root.
    let m = lemma_root_exists(n);
    roots::lemma_nearest_root(n, m);
    assert(0x80_0000 <= m <= 0x100_0000) by (nonlinear_arith)
        requires
            (2 * m - 1) * (2 * m - 1) <= 4 * n,
            4 * n < (2 * m + 1) * (2 * m + 1),
            0x4000_0000_0000 <= n < 0x1_0000_0000_0000,
            m >= 1,
    ;
    let half = y / 2;
    let r = rounding::packed(f, false, m, half);
    assert(r is Finite && r.fits(f));
    Real32::lemma_of(r, f);
    let up = (half + 149) as nat;
    let p = power2::pow2(up);
    power2::lemma_pow2_pos(up);
    power2::lemma_pow2_unfold(up + 1);
    let v = m * p;
    if m >= f.high() {
        assert(0x80_0000 * (2 * p) == 0x100_0000 * p) by (nonlinear_arith);
        assert((half + 1 + 149) as nat == up + 1);
    }
    let root = a.root_spec();
    assert(values::narrow(root) == v);
    assert(v > 0) by (nonlinear_arith)
        requires
            v == m * p,
            m > 0,
            p > 0,
    ;
    // n * 2^y and the number are one.
    let u = values::narrow_one();
    let pp = p * p;
    power2::lemma_pow2_adds(up, up);
    power2::lemma_pow2_adds(lifted, 149);
    power2::lemma_pow2_adds(g, up + up);
    assert(g + (up + up) == lifted + 149);
    let w = power2::pow2(g);
    let z = power2::pow2(lifted);
    assert(n * pp == (mantissa * z) * u) by (nonlinear_arith)
        requires
            n == mantissa * w,
            w * pp == z * u,
    ;
    assert(v * v == (m * m) * pp) by (nonlinear_arith)
        requires
            v == m * p,
            pp == p * p,
    ;
    // The whole root is as near as its precision.
    let mm = m * m;
    assert((2 * m - 1) * (2 * m - 1) == 4 * mm - 4 * m + 1 && (2 * m + 1) * (2 * m + 1) == 4 * mm
        + 4 * m + 1) by (nonlinear_arith)
        requires
            mm == m * m,
    ;
    assert(mm >= 0x80_0000 * m) by (nonlinear_arith)
        requires
            mm == m * m,
            m >= 0x80_0000,
    ;
    assert(close(n as int, mm as int, 1));
    lemma_turned(n as int, mm as int, 1);
    lemma_scaled(mm as int, n as int, pp as int, 2);
}

/// Every whole number has a nearest root.
proof fn lemma_root_exists(n: nat) -> (m: nat)
    requires
        n > 0,
    ensures
        roots::is_nearest_root(n, m),
    decreases n,
{
    if n == 1 {
        let one: nat = 1;
        assert((2 * one - 1) * (2 * one - 1) == 1 && (2 * one + 1) * (2 * one + 1) == 9)
            by (nonlinear_arith)
            requires
                one == 1,
        ;
        one
    } else {
        let k = lemma_root_exists((n - 1) as nat);
        let next: int = (2 * k + 1) as int;
        let square = next * next;
        assert((2 * k + 1) * (2 * k + 1) == square);
        assert((2 * k - 1) * (2 * k - 1) <= 4 * (n - 1));
        if 4 * n < square {
            assert(roots::is_nearest_root(n, k));
            k
        } else {
            let after: int = (2 * (k + 1) + 1) as int;
            assert(after * after == square + 4 * next + 4) by (nonlinear_arith)
                requires
                    after == next + 2,
                    square == next * next,
            ;
            let m: nat = k + 1;
            assert(2 * m - 1 == next && 2 * m + 1 == after);
            assert((2 * m - 1) * (2 * m - 1) == square);
            assert((2 * m + 1) * (2 * m + 1) == after * after);
            assert(roots::is_nearest_root(n, m));
            m
        }
    }
}

/// Counts that agree are within a factor of two of each other.
pub proof fn lemma_within_two(a: int, b: int, k: int)
    requires
        close(a, b, k),
        0 <= k <= 1000,
        b >= 0,
    ensures
        b <= 2 * a,
        a <= 2 * b,
        a >= 0,
{
    assert(k * b <= 1000 * b) by (nonlinear_arith)
        requires
            k <= 1000,
            b >= 0,
    ;
}

/// The sign of a number is the sign of its count.
pub proof fn lemma_sign(a: Real32)
    requires
        a.finite(),
    ensures
        (Real32 { bits: 0 }).at_most(a) <==> values::narrow(a) >= 0,
        (Real32 { bits: 0 }).below(a) <==> values::narrow(a) > 0,
{
    a.lemma_number(ieee::single_format());
    let m = a.number()->mantissa as nat;
    let k = (a.number()->exponent + 149) as nat;
    let p = power2::pow2(k);
    power2::lemma_pow2_pos(k);
    assert((m > 0 ==> m * p > 0) && (m == 0 ==> m * p == 0)) by (nonlinear_arith)
        requires
            p > 0,
    ;
}

/// A number from nothing to one has a count from nothing to one's.
pub proof fn lemma_unit(a: Real32)
    requires
        (Real32 { bits: 0 }).at_most(a),
        a.at_most(Real32 { bits: 0x3f80_0000 }),
    ensures
        a.finite(),
        0 <= values::narrow(a) <= values::narrow_one(),
{
    lemma_sign(a);
    a.lemma_number(ieee::single_format());
    if a.rank() > 0 {
        let m = a.number()->mantissa as nat;
        let k = (a.number()->exponent + 149) as nat;
        let p = power2::pow2(k);
        power2::lemma2_to64();
        power2::lemma_pow2_adds(23, 126);
        power2::lemma_pow2_adds(24, 125);
        power2::lemma_pow2_pos(k);
        if a.bits == 0x3f80_0000 {
            assert(k == 126);
        } else {
            assert(k <= 125);
            if k < 125 {
                power2::lemma_pow2_strictly_increases(k, 125);
            }
            let top = power2::pow2(125);
            assert(m * p <= 0x100_0000 * top) by (nonlinear_arith)
                requires
                    m <= 0x100_0000,
                    0 < p <= top,
            ;
        }
    }
}

/// The count of a bit pattern below the sign.
spec fn count_of(magnitude: int) -> int {
    let field = magnitude / 0x80_0000;
    let fraction = magnitude % 0x80_0000;
    if field == 0 {
        fraction
    } else {
        (0x80_0000 + fraction) * power2::pow2((field - 1) as nat)
    }
}

proof fn lemma_count_of(a: Real32)
    requires
        a.finite(),
    ensures
        values::size(values::narrow(a)) == count_of(a.magnitude()),
        values::narrow(a) == if a.bits >= 0x8000_0000 {
            -count_of(a.magnitude())
        } else {
            count_of(a.magnitude())
        },
        count_of(a.magnitude()) >= 0,
        count_of(a.magnitude()) == 0 <==> a.magnitude() == 0,
{
    let field = a.magnitude() / 0x80_0000;
    let fraction = a.magnitude() % 0x80_0000;
    power2::lemma2_to64();
    if field == 0 {
        assert(fraction * 1 == fraction);
    } else {
        let p = power2::pow2((field - 1) as nat);
        power2::lemma_pow2_pos((field - 1) as nat);
        assert((0x80_0000 + fraction) * p > 0) by (nonlinear_arith)
            requires
                fraction >= 0,
                p > 0,
        ;
    }
}

proof fn lemma_count_grows(a: int, b: int)
    requires
        0 <= a < b,
    ensures
        count_of(a) < count_of(b),
{
    let (fa, fb) = (a / 0x80_0000, b / 0x80_0000);
    let (ra, rb) = (a % 0x80_0000, b % 0x80_0000);
    power2::lemma2_to64();
    if fa == fb {
        if fa > 0 {
            let p = power2::pow2((fa - 1) as nat);
            power2::lemma_pow2_pos((fa - 1) as nat);
            assert((0x80_0000 + ra) * p < (0x80_0000 + rb) * p) by (nonlinear_arith)
                requires
                    ra < rb,
                    p > 0,
            ;
        }
    } else {
        let q = power2::pow2((fb - 1) as nat);
        if fa == 0 {
            if fb > 1 {
                power2::lemma_pow2_strictly_increases(0, (fb - 1) as nat);
            }
            assert((0x80_0000 + rb) * q >= 0x80_0000) by (nonlinear_arith)
                requires
                    rb >= 0,
                    q >= 1,
            ;
        } else {
            let p = power2::pow2((fa - 1) as nat);
            power2::lemma_pow2_pos((fa - 1) as nat);
            power2::lemma_pow2_unfold(fa as nat);
            if fa < fb - 1 {
                power2::lemma_pow2_strictly_increases(fa as nat, (fb - 1) as nat);
            }
            assert((0x80_0000 + ra) * p < (0x80_0000 + rb) * q) by (nonlinear_arith)
                requires
                    ra < 0x80_0000,
                    rb >= 0,
                    q >= 2 * p,
                    p > 0,
            ;
        }
    }
}

/// One finite number is below another exactly where its count is.
pub proof fn numbers_are_ordered_as_counts(a: Real32, b: Real32)
    requires
        a.finite(),
        b.finite(),
    ensures
        a.below(b) <==> values::narrow(a) < values::narrow(b),
        a.at_most(b) <==> values::narrow(a) <= values::narrow(b),
        a.equals(b) <==> values::narrow(a) == values::narrow(b),
{
    lemma_count_of(a);
    lemma_count_of(b);
    if a.magnitude() < b.magnitude() {
        lemma_count_grows(a.magnitude(), b.magnitude());
    }
    if b.magnitude() < a.magnitude() {
        lemma_count_grows(b.magnitude(), a.magnitude());
    }
}

} // verus!
