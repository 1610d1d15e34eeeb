//! Report encoding, fixed-decimal formatting and display text.

use evcore::display::value_text;
use evcore::rat::Rat;
use evcore::registry::{CanMap, Registry, ReportMap};
use evcore::report::{build_report, ReportError};
use evcore::CanBitSelection;

fn one_report_param(value: Option<Rat>, decimals: u8, scale: Rat) -> Registry {
    let mut registry = Registry::new();
    registry.add(
        String::from("Voltage"),
        value,
        1,
        String::from("V"),
        None,
        Some(ReportMap { name: b"v".to_vec(), decimals, scale }),
    );
    registry
}

#[test]
fn report_token_scales_and_rounds() {
    // value 123.0, wire scale 0.1, one decimal place -> "v=12.3&"
    let registry = one_report_param(Some(Rat::from_int(123)), 1, Rat { num: 1, den: 10 });
    let out = build_report(&registry, &b"".to_vec(), 100).unwrap();
    assert_eq!(out, b"v=12.3&".to_vec());
}

#[test]
fn report_starts_from_prefix() {
    let registry = one_report_param(Some(Rat::from_int(10)), 0, Rat { num: 1, den: 1 });
    let prefix = b"http://collector/report?id=car&".to_vec();
    let out = build_report(&registry, &prefix, 100).unwrap();
    assert_eq!(out, b"http://collector/report?id=car&v=10&".to_vec());
}

#[test]
fn report_renders_unknown_as_nan() {
    let registry = one_report_param(None, 1, Rat { num: 1, den: 10 });
    let out = build_report(&registry, &b"".to_vec(), 100).unwrap();
    assert_eq!(out, b"v=NaN&".to_vec());
}

#[test]
fn report_skips_parameters_without_rule() {
    let mut registry = one_report_param(Some(Rat::from_int(5)), 0, Rat { num: 1, den: 1 });
    registry.add(
        String::from("Silent"),
        Some(Rat::from_int(9)),
        0,
        String::from(""),
        Some(CanMap {
            id: 0x100,
            bits: CanBitSelection::Bit(0),
            offset: 0,
            scale: Rat { num: 1, den: 1 },
        }),
        None,
    );
    let out = build_report(&registry, &b"".to_vec(), 100).unwrap();
    assert_eq!(out, b"v=5&".to_vec());
}

#[test]
fn report_is_deterministic() {
    let registry = one_report_param(Some(Rat { num: 12345, den: 7 }), 2, Rat { num: 3, den: 100 });
    let a = build_report(&registry, &b"p?".to_vec(), 100).unwrap();
    let b = build_report(&registry, &b"p?".to_vec(), 100).unwrap();
    assert_eq!(a, b);
}

#[test]
fn report_fails_when_capacity_exceeded() {
    let registry = one_report_param(Some(Rat::from_int(123)), 1, Rat { num: 1, den: 10 });
    // "v=12.3&" is seven bytes; a six-byte buffer must refuse, not truncate.
    assert_eq!(build_report(&registry, &b"".to_vec(), 6), Err(ReportError::BufferOverflow));
    assert!(build_report(&registry, &b"".to_vec(), 7).is_ok());
}

#[test]
fn report_rounds_to_nearest() {
    // 1/3 at two decimals is 0.33; 2/3 is 0.67.
    let a = one_report_param(Some(Rat { num: 1, den: 3 }), 2, Rat { num: 1, den: 1 });
    assert_eq!(build_report(&a, &b"".to_vec(), 100).unwrap(), b"v=0.33&".to_vec());
    let b = one_report_param(Some(Rat { num: 2, den: 3 }), 2, Rat { num: 1, den: 1 });
    assert_eq!(build_report(&b, &b"".to_vec(), 100).unwrap(), b"v=0.67&".to_vec());
}

#[test]
fn report_handles_negative_values() {
    let registry = one_report_param(Some(Rat { num: -5, den: 2 }), 1, Rat { num: 1, den: 1 });
    assert_eq!(build_report(&registry, &b"".to_vec(), 100).unwrap(), b"v=-2.5&".to_vec());
}

#[test]
fn display_text_right_aligns() {
    let text = value_text(Some(Rat { num: -5, den: 2 }), 1, 6);
    assert_eq!(text, b"  -2.5".to_vec());
    let wide = value_text(Some(Rat::from_int(2)), 0, 4);
    assert_eq!(wide, b"   2".to_vec());
}

#[test]
fn display_text_shows_dash_for_unknown() {
    assert_eq!(value_text(None, 2, 6), b"     -".to_vec());
    assert_eq!(value_text(None, 0, 4), b"   -".to_vec());
}

#[test]
fn display_text_pads_fraction_with_zeros() {
    // 1/8 at three decimals is exactly 0.125; at two it rounds to 0.13;
    // 201/100 at two decimals keeps the zero: 2.01.
    assert_eq!(value_text(Some(Rat { num: 1, den: 8 }), 3, 0), b"0.125".to_vec());
    assert_eq!(value_text(Some(Rat { num: 1, den: 8 }), 2, 0), b"0.13".to_vec());
    assert_eq!(value_text(Some(Rat { num: 201, den: 100 }), 2, 0), b"2.01".to_vec());
}

#[test]
fn empty_registry_reports_only_prefix() {
    let registry = Registry::new();
    let out = build_report(&registry, &b"http://collector/".to_vec(), 100).unwrap();
    assert_eq!(out, b"http://collector/".to_vec());
}

#[test]
fn rat_checked_ops() {
    let a = Rat::from_int(6);
    let b = Rat { num: 1, den: 2 };
    assert_eq!(a.checked_mul(b), Some(Rat { num: 6, den: 2 }));
    assert_eq!(a.checked_sub(b), Some(Rat { num: 11, den: 2 }));
    assert!(Rat { num: 1, den: 1 }.lt(Rat { num: 3, den: 2 }));
    assert!(!Rat { num: 3, den: 2 }.lt(Rat { num: 3, den: 2 }));
    assert!(Rat { num: 3, den: 2 }.le(Rat { num: 6, den: 4 }));
}
