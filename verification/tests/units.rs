use raster_ui::dialogs::units::{format_bytes, ResolutionUnit, Unit, DEFAULT_PPI, MAX_PPI};
use raster_ui::ieee::Real64;

fn num(value: f64) -> Real64 {
    Real64::from_bits(value.to_bits())
}

fn value(number: Real64) -> f64 {
    f64::from_bits(number.bits)
}

fn to_px(unit: Unit, amount: f64, ppi: f64, reference: f64) -> f64 {
    value(unit.to_pixels(num(amount), num(ppi), num(reference)))
}

fn from_px(unit: Unit, px: f64, ppi: f64, reference: f64) -> f64 {
    value(unit.from_pixels(num(px), num(ppi), num(reference)))
}

#[test]
fn physical_units_round_trip_through_pixels() {
    for unit in Unit::ALL {
        for amount in [0.0, 0.5, 1.0, 7.25, 1234.5] {
            let px = to_px(unit, amount, 300.0, 800.0);
            let back = from_px(unit, px, 300.0, 800.0);
            assert!(
                (back - amount).abs() < 1e-9,
                "{unit:?}: {amount} -> {px}px -> {back}"
            );
        }
    }
}

#[test]
fn one_inch_is_the_resolution_in_pixels() {
    assert_eq!(to_px(Unit::Inches, 1.0, 300.0, 0.0), 300.0);
    assert_eq!(to_px(Unit::Inches, 2.0, 72.0, 0.0), 144.0);
}

#[test]
fn the_physical_units_agree_on_what_an_inch_is() {
    let ppi = 254.0;
    let inch = to_px(Unit::Inches, 1.0, ppi, 0.0);
    for (unit, count) in [
        (Unit::Centimeters, 2.54),
        (Unit::Millimeters, 25.4),
        (Unit::Points, 72.0),
        (Unit::Picas, 6.0),
    ] {
        let got = to_px(unit, count, ppi, 0.0);
        assert!(
            (got - inch).abs() < 1e-6,
            "{count} {unit:?} should be an inch ({inch}px), got {got}px"
        );
    }
}

#[test]
fn percent_is_relative_to_the_reference_and_ignores_resolution() {
    assert_eq!(to_px(Unit::Percent, 50.0, 300.0, 800.0), 400.0);
    assert_eq!(to_px(Unit::Percent, 50.0, 72.0, 800.0), 400.0);
    assert_eq!(from_px(Unit::Percent, 400.0, 72.0, 800.0), 50.0);
}

#[test]
fn a_zero_reference_does_not_divide_by_zero() {
    assert_eq!(from_px(Unit::Percent, 400.0, 72.0, 0.0), 0.0);
}

#[test]
fn a_broken_resolution_falls_back_instead_of_producing_infinity() {
    for bad in [0.0, -10.0, f64::NAN, f64::INFINITY] {
        let px = to_px(Unit::Inches, 1.0, bad, 0.0);
        assert!(px.is_finite(), "ppi {bad} produced {px}");
        assert_eq!(px.to_bits(), DEFAULT_PPI);
    }
    assert_eq!(
        to_px(Unit::Inches, 1.0, 1e9, 0.0).to_bits(),
        MAX_PPI,
        "a resolution past the limit is held to it"
    );
}

#[test]
fn resolution_units_round_trip() {
    assert_eq!(value(ResolutionUnit::PerInch.to_ppi(num(300.0))), 300.0);
    let per_cm = ResolutionUnit::PerCentimeter;
    let back = value(per_cm.from_ppi(per_cm.to_ppi(num(118.11))));
    assert!((back - 118.11).abs() < 1e-9);
    assert!((value(per_cm.to_ppi(num(1.0))) - 2.54).abs() < 1e-12);
}

#[test]
fn only_physical_units_depend_on_resolution() {
    for unit in Unit::ALL {
        let at_72 = to_px(unit, 3.0, 72.0, 100.0);
        let at_300 = to_px(unit, 3.0, 300.0, 100.0);
        assert_eq!(
            unit.is_physical(),
            at_72 != at_300,
            "{unit:?} is_physical={} but {at_72} vs {at_300}",
            unit.is_physical()
        );
        assert_eq!(unit.is_physical(), Unit::PHYSICAL.contains(&unit));
    }
}

#[test]
fn byte_counts_read_the_way_a_file_manager_writes_them() {
    assert_eq!(format_bytes(0), "0 bytes");
    assert_eq!(format_bytes(512), "512 bytes");
    assert_eq!(format_bytes(1536), "1.5 KB");
    assert_eq!(format_bytes(3 << 20), "3.0 MB");
    assert_eq!(format_bytes(200 << 20), "200 MB");
    assert_eq!(format_bytes(5 << 30), "5.0 GB");
}

/// The same count written by the standard library's own number formatting.
fn written_by_std(bytes: u64) -> String {
    for (suffix, scale) in [("GB", 1u64 << 30), ("MB", 1 << 20), ("KB", 1 << 10)] {
        if bytes >= scale {
            let value = bytes as f64 / scale as f64;
            let decimals = if value >= 100.0 { 0 } else { 1 };
            return format!("{value:.decimals$} {suffix}");
        }
    }
    format!("{bytes} bytes")
}

#[test]
fn byte_counts_agree_with_the_standard_formatting() {
    let mut n: u64 = 1;
    for step in 0..4000u64 {
        n = n
            .wrapping_mul(6_364_136_223_846_793_005)
            .wrapping_add(1_442_695_040_888_963_407 ^ step);
        let bytes = n >> (step % 60);
        assert_eq!(format_bytes(bytes), written_by_std(bytes), "{bytes}");
    }
    for bytes in [
        1023,
        1024,
        1025,
        1075,
        1076,
        102_348,
        102_400,
        104_857_600,
        u64::MAX,
    ] {
        assert_eq!(format_bytes(bytes), written_by_std(bytes), "{bytes}");
    }
}

#[test]
fn every_unit_is_named() {
    for unit in Unit::ALL {
        assert!(!unit.short().is_empty() && !unit.label().is_empty());
        assert_eq!(unit.inches_per().is_some(), unit.is_physical());
    }
    assert_eq!(Unit::PREFERENCE_CHOICES.len(), 6);
    assert!(!Unit::PREFERENCE_CHOICES.contains(&Unit::Percent));
    assert_eq!(Unit::default(), Unit::Pixels);
    for unit in ResolutionUnit::ALL {
        assert!(!unit.label().is_empty());
    }
}

#[test]
fn a_printed_length_shows_three_decimals() {
    for unit in Unit::ALL {
        let decimals = match unit {
            Unit::Pixels => 0,
            Unit::Percent => 2,
            _ => 3,
        };
        assert_eq!(unit.decimals(), decimals, "{unit:?}");
    }
}
