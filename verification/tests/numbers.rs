use raster_ui::ieee::{Real32, Real64};

fn narrow(value: f32) -> Real32 {
    Real32::from_bits(value.to_bits())
}

fn wide(value: f64) -> Real64 {
    Real64::from_bits(value.to_bits())
}

/// The same number, or both not a number.
fn agree32(got: Real32, want: f32, what: &str) {
    let number = f32::from_bits(got.bits);
    assert!(
        number.to_bits() == want.to_bits() || (number.is_nan() && want.is_nan()),
        "{what}: {number:?} is not {want:?}"
    );
}

fn agree64(got: Real64, want: f64, what: &str) {
    let number = f64::from_bits(got.bits);
    assert!(
        number.to_bits() == want.to_bits() || (number.is_nan() && want.is_nan()),
        "{what}: {number:?} is not {want:?}"
    );
}

struct Numbers(u64);

impl Numbers {
    fn next(&mut self) -> u64 {
        self.0 = self
            .0
            .wrapping_mul(6_364_136_223_846_793_005)
            .wrapping_add(1_442_695_040_888_963_407);
        self.0 ^ (self.0 >> 29)
    }
}

fn singles() -> Vec<f32> {
    let mut out = vec![
        0.0,
        -0.0,
        1.0,
        -1.0,
        0.5,
        1.5,
        2.5,
        -2.5,
        0.1,
        1e-45,
        -1e-45,
        1.1754942e-38,
        1.17549435e-38,
        3.4028235e38,
        -3.4028235e38,
        f32::INFINITY,
        f32::NEG_INFINITY,
        f32::NAN,
        8388607.5,
        16777216.0,
        16777217.0,
        4294967040.0,
        4294967296.0,
    ];
    let mut source = Numbers(11);
    for _ in 0..60 {
        out.push(f32::from_bits(source.next() as u32));
    }
    for _ in 0..30 {
        out.push((source.next() % 1_000_000) as f32 / 997.0);
    }
    out
}

fn doubles() -> Vec<f64> {
    let mut out = vec![
        0.0,
        -0.0,
        1.0,
        -1.0,
        0.5,
        1.5,
        2.5,
        -0.5,
        0.1,
        0.3,
        5e-324,
        2.2250738585072014e-308,
        2.225073858507201e-308,
        1.7976931348623157e308,
        f64::INFINITY,
        f64::NEG_INFINITY,
        f64::NAN,
        4503599627370495.5,
        9007199254740993.0,
        1.1754943508222875e-38,
        7.006492321624085e-46,
        3.4028235677973366e38,
    ];
    let mut source = Numbers(23);
    for _ in 0..60 {
        out.push(f64::from_bits(source.next()));
    }
    for _ in 0..30 {
        out.push((source.next() % 1_000_000) as f64 / 997.0);
    }
    out
}

#[test]
fn single_arithmetic_is_the_machines_own() {
    let all = singles();
    for &a in &all {
        for &b in &all {
            let (x, y) = (narrow(a), narrow(b));
            agree32(x.plus(y), a + b, &format!("{a:?} + {b:?}"));
            agree32(x.minus(y), a - b, &format!("{a:?} - {b:?}"));
            agree32(x.times(y), a * b, &format!("{a:?} * {b:?}"));
            agree32(x.over(y), a / b, &format!("{a:?} / {b:?}"));
            assert_eq!(x.is_below(y), a < b, "{a:?} < {b:?}");
            assert_eq!(x.is_equal(y), a == b, "{a:?} == {b:?}");
            assert_eq!(x.is_at_most(y), a <= b, "{a:?} <= {b:?}");
        }
    }
}

#[test]
fn double_arithmetic_is_the_machines_own() {
    let all = doubles();
    for &a in &all {
        for &b in &all {
            let (x, y) = (wide(a), wide(b));
            agree64(x.plus(y), a + b, &format!("{a:?} + {b:?}"));
            agree64(x.minus(y), a - b, &format!("{a:?} - {b:?}"));
            agree64(x.times(y), a * b, &format!("{a:?} * {b:?}"));
            agree64(x.over(y), a / b, &format!("{a:?} / {b:?}"));
            assert_eq!(x.is_below(y), a < b, "{a:?} < {b:?}");
            assert_eq!(x.is_equal(y), a == b, "{a:?} == {b:?}");
            assert_eq!(x.is_at_most(y), a <= b, "{a:?} <= {b:?}");
        }
    }
}

#[test]
fn single_conversions_are_the_machines_own() {
    for a in singles() {
        let x = narrow(a);
        agree32(x.rounded(), a.round(), &format!("{a:?} rounded"));
        agree32(x.abs(), a.abs(), &format!("|{a:?}|"));
        agree32(x.sqrt(), a.sqrt(), &format!("root of {a:?}"));
        agree64(x.widened(), f64::from(a), &format!("{a:?} widened"));
        assert_eq!(x.to_u32(), a as u32, "{a:?} as u32");
        assert_eq!(x.to_u8(), a as u8, "{a:?} as u8");
        assert_eq!(x.is_nan(), a.is_nan());
        assert_eq!(x.is_finite(), a.is_finite());
    }
}

#[test]
fn double_conversions_are_the_machines_own() {
    for a in doubles() {
        let x = wide(a);
        agree64(x.rounded(), a.round(), &format!("{a:?} rounded"));
        agree64(x.abs(), a.abs(), &format!("|{a:?}|"));
        agree32(x.narrowed(), a as f32, &format!("{a:?} narrowed"));
        assert_eq!(x.to_u32(), a as u32, "{a:?} as u32");
        assert_eq!(x.to_u8(), a as u8, "{a:?} as u8");
        assert_eq!(x.is_nan(), a.is_nan());
        assert_eq!(x.is_finite(), a.is_finite());
    }
}

#[test]
fn whole_numbers_convert_as_the_machine_does() {
    let mut source = Numbers(5);
    for step in 0..500u32 {
        let n = source.next() >> (step % 64);
        agree32(Real32::from_u64(n), n as f32, &format!("{n}"));
        agree64(Real64::from_u64(n), n as f64, &format!("{n}"));
    }
    agree32(Real32::from_u64(u64::MAX), u64::MAX as f32, "the largest");
    agree64(Real64::from_u64(u64::MAX), u64::MAX as f64, "the largest");
}

#[test]
fn roots_are_the_machines_own() {
    let mut source = Numbers(31);
    for _ in 0..2000 {
        let a = f32::from_bits((source.next() as u32) & 0x7fff_ffff);
        agree32(narrow(a).sqrt(), a.sqrt(), &format!("root of {a:?}"));
    }
}

#[test]
fn a_clamped_number_is_the_machines_own() {
    for a in singles() {
        let got = narrow(a).clamp(narrow(-3.5), narrow(1000.0));
        agree32(got, a.clamp(-3.5, 1000.0), &format!("{a:?} clamped"));
    }
    for a in doubles() {
        let got = wide(a).clamp(wide(-3.5), wide(1000.0));
        agree64(got, a.clamp(-3.5, 1000.0), &format!("{a:?} clamped"));
    }
}
