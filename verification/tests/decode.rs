//! Bit-field decoding, frame dispatch and staleness sweep.

use evcore::bitfield::{decode_bits, CanBitSelection};
use evcore::registry::{update_parameters_on_can, CanFrame, CanMap, Parameter, Registry, ReportMap};
use evcore::rat::Rat;

fn payload(bytes: &[u8]) -> Vec<u8> {
    bytes.to_vec()
}

#[test]
fn decode_single_bits() {
    let p = payload(&[0b0000_0100, 0b0000_0010, 0, 0, 0, 0, 0, 0]);
    assert_eq!(decode_bits(CanBitSelection::Bit(2), &p), 1);
    assert_eq!(decode_bits(CanBitSelection::Bit(3), &p), 0);
    assert_eq!(decode_bits(CanBitSelection::Bit(9), &p), 1);
    assert_eq!(decode_bits(CanBitSelection::Bit(8), &p), 0);
}

#[test]
fn decode_bytes() {
    let p = payload(&[5, 0xFF, 0x80, 0, 0, 0, 0, 0]);
    assert_eq!(decode_bits(CanBitSelection::Uint8(0), &p), 5);
    assert_eq!(decode_bits(CanBitSelection::Uint8(1), &p), 255);
    assert_eq!(decode_bits(CanBitSelection::Int8(1), &p), -1);
    assert_eq!(decode_bits(CanBitSelection::Int8(2), &p), -128);
}

#[test]
fn decode_big_endian_runs() {
    // First twelve bits of 0x12 0x34 are 0x123.
    let p = payload(&[0x12, 0x34, 0, 0, 0, 0, 0, 0]);
    assert_eq!(decode_bits(CanBitSelection::BeUnsigned(0, 12), &p), 0x123);
    assert_eq!(decode_bits(CanBitSelection::BeUnsigned(12, 12), &p), 0x400);
    assert_eq!(decode_bits(CanBitSelection::BeUnsigned(8, 8), &p), 0x34);
    let q = payload(&[0xFF, 0xF0, 0, 0, 0, 0, 0, 0]);
    assert_eq!(decode_bits(CanBitSelection::BeSigned(0, 12), &q), -1);
    assert_eq!(decode_bits(CanBitSelection::BeUnsigned(0, 12), &q), 0xFFF);
}

#[test]
fn decode_little_endian_runs() {
    let p = payload(&[0x34, 0x12, 0, 0, 0, 0, 0, 0]);
    assert_eq!(decode_bits(CanBitSelection::LeUnsigned(0, 12), &p), 0x234);
    assert_eq!(decode_bits(CanBitSelection::LeUnsigned(0, 8), &p), 0x34);
    let q = payload(&[0xFF, 0x0F, 0, 0, 0, 0, 0, 0]);
    assert_eq!(decode_bits(CanBitSelection::LeSigned(0, 12), &q), -1);
}

#[test]
fn decode_composites() {
    let p = payload(&[0, 0, 0, 0x5C, 0x57, 7, 0, 0]);
    assert_eq!(decode_bits(CanBitSelection::MaxOfBytes(3, 4), &p), 0x5C);
    assert_eq!(decode_bits(CanBitSelection::MaxOfBytes(4, 3), &p), 0x5C);
    assert_eq!(decode_bits(CanBitSelection::NonZeroByte(5), &p), 1);
    assert_eq!(decode_bits(CanBitSelection::NonZeroByte(6), &p), 0);
    assert_eq!(decode_bits(CanBitSelection::BitOr(26, 27), &p), 1);
    assert_eq!(decode_bits(CanBitSelection::BitOr(0, 1), &p), 0);
}

#[test]
fn decoder_is_deterministic() {
    let p = payload(&[0x12, 0x34, 0x56, 0x78, 0x9A, 0xBC, 0xDE, 0xF0]);
    let first = decode_bits(CanBitSelection::BeSigned(4, 24), &p);
    let second = decode_bits(CanBitSelection::BeSigned(4, 24), &p);
    assert_eq!(first, second);
}

fn single_param_registry() -> Registry {
    let mut registry = Registry::new();
    registry.add(
        String::from("Test"),
        None,
        0,
        String::from("V"),
        Some(CanMap {
            id: 0x102,
            bits: CanBitSelection::Uint8(0),
            offset: 0,
            scale: Rat { num: 2, den: 1 },
        }),
        None,
    );
    registry
}

#[test]
fn frame_updates_matching_parameter() {
    let mut registry = single_param_registry();
    assert!(registry.check_config());
    assert!(registry.check_id_consistency());
    let frame = CanFrame { id: 0x102, payload: payload(&[5, 0, 0, 0, 0, 0, 0, 0]) };
    registry.on_frame(&frame, 1000);
    let p = registry.get(0);
    assert_eq!(p.value, Some(Rat { num: 10, den: 1 }));
    assert_eq!(p.update_timestamp, 1000);
}

#[test]
fn frame_with_other_id_is_a_no_op() {
    let mut registry = single_param_registry();
    let frame = CanFrame { id: 0x103, payload: payload(&[5, 0, 0, 0, 0, 0, 0, 0]) };
    registry.on_frame(&frame, 1000);
    assert_eq!(registry.get(0).value, None);
    assert_eq!(registry.get(0).update_timestamp, 0);
}

#[test]
fn offset_applies_before_scale() {
    // A byte holding temperature in Fahrenheit, converted to Celsius:
    // (f - 32) * 5 / 9.
    let mut registry = Registry::new();
    registry.add(
        String::from("InverterT"),
        None,
        0,
        String::from("degC"),
        Some(CanMap {
            id: 0x55A,
            bits: CanBitSelection::Uint8(2),
            offset: -32,
            scale: Rat { num: 5, den: 9 },
        }),
        None,
    );
    let frame = CanFrame { id: 0x55A, payload: payload(&[0, 0, 212, 0, 0, 0, 0, 0]) };
    registry.on_frame(&frame, 7);
    // (212 - 32) * 5 / 9 == 100
    assert_eq!(registry.get(0).value, Some(Rat { num: 900, den: 9 }));
}

#[test]
fn sweep_resets_only_stale_decodable_values() {
    let mut registry = single_param_registry();
    let frame = CanFrame { id: 0x102, payload: payload(&[5, 0, 0, 0, 0, 0, 0, 0]) };
    registry.on_frame(&frame, 1000);
    registry.sweep_stale(5999, 5000);
    assert_eq!(registry.get(0).value, Some(Rat { num: 10, den: 1 }));
    registry.sweep_stale(6001, 5000);
    assert_eq!(registry.get(0).value, None);
}

#[test]
fn sweep_skips_parameters_without_decode_rule() {
    let mut registry = Registry::new();
    registry.add(
        String::from("Derived"),
        Some(Rat::from_int(7)),
        0,
        String::from(""),
        None,
        Some(ReportMap { name: b"d".to_vec(), decimals: 0, scale: Rat { num: 1, den: 1 } }),
    );
    registry.sweep_stale(1_000_000, 5000);
    assert_eq!(registry.get(0).value, Some(Rat::from_int(7)));
}

#[test]
fn set_value_stamps_value_and_time() {
    let mut registry = single_param_registry();
    registry.set_value(0, Rat::from_int(42), 777);
    assert_eq!(registry.get(0).value, Some(Rat { num: 42, den: 1 }));
    assert_eq!(registry.get(0).update_timestamp, 777);
}

#[test]
fn bulk_update_entry_point_matches_dispatcher() {
    let mut registry = single_param_registry();
    let frame = CanFrame { id: 0x102, payload: payload(&[9, 0, 0, 0, 0, 0, 0, 0]) };
    update_parameters_on_can(&mut registry, &frame, 123);
    assert_eq!(registry.get(0).value, Some(Rat { num: 18, den: 1 }));
    assert_eq!(registry.get(0).update_timestamp, 123);
}

#[test]
fn one_frame_updates_every_matching_parameter() {
    // Several packed signals share one frame identifier; all are updated
    // independently by a single frame.
    let mut registry = Registry::new();
    registry.add(
        String::from("Bat T min"),
        None,
        0,
        String::from("degC"),
        Some(CanMap {
            id: 0x101,
            bits: CanBitSelection::Int8(3),
            offset: 0,
            scale: Rat { num: 1, den: 1 },
        }),
        None,
    );
    registry.add(
        String::from("Bat T max"),
        None,
        0,
        String::from("degC"),
        Some(CanMap {
            id: 0x101,
            bits: CanBitSelection::Int8(4),
            offset: 0,
            scale: Rat { num: 1, den: 1 },
        }),
        None,
    );
    registry.add(
        String::from("Other bus"),
        None,
        0,
        String::from(""),
        Some(CanMap {
            id: 0x200,
            bits: CanBitSelection::Uint8(0),
            offset: 0,
            scale: Rat { num: 1, den: 1 },
        }),
        None,
    );
    let frame = CanFrame { id: 0x101, payload: payload(&[0, 0, 0, 6, 10, 0, 0, 0]) };
    registry.on_frame(&frame, 50);
    assert_eq!(registry.get(0).value, Some(Rat { num: 6, den: 1 }));
    assert_eq!(registry.get(1).value, Some(Rat { num: 10, den: 1 }));
    assert_eq!(registry.get(2).value, None);
}

#[test]
fn id_consistency_detects_corruption() {
    let mut registry = single_param_registry();
    assert!(registry.check_id_consistency());
    let p = Parameter::new(5, String::from("bad"), None, 0, String::from(""), None, None);
    registry.params.push(p);
    assert!(!registry.check_id_consistency());
}
