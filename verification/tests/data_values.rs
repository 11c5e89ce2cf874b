//! The property-value invariant: exactly one populated optional field, the
//! one its tag names; and the value's wire round trip.

use extrinsics::asset_registry::{decode_data_value, DataType, DataValue};
use extrinsics::codec::encode;
use extrinsics::identity::fact::Fact;

fn populated_fields(v: &DataValue) -> usize {
    let mut n = 0;
    if v.bool_value.is_some() {
        n += 1;
    }
    if v.string_value.is_some() {
        n += 1;
    }
    if v.u8_value.is_some() {
        n += 1;
    }
    if v.u16_value.is_some() {
        n += 1;
    }
    if v.u32_value.is_some() {
        n += 1;
    }
    if v.u128_value.is_some() {
        n += 1;
    }
    n
}

#[test]
fn constructors_populate_exactly_one_field() {
    let cases = vec![
        DataValue::from_bool(true),
        DataValue::from_string(b"s".to_vec()),
        DataValue::from_u8(1),
        DataValue::from_u16(2),
        DataValue::from_u32(3),
        DataValue::from_u128(4),
    ];
    for v in &cases {
        assert_eq!(populated_fields(v), 1);
    }
    assert_eq!(cases[0].data_type, DataType::Bool);
    assert!(cases[0].bool_value.is_some());
    assert_eq!(cases[1].data_type, DataType::String);
    assert!(cases[1].string_value.is_some());
    assert_eq!(cases[2].data_type, DataType::U8);
    assert!(cases[2].u8_value.is_some());
    assert_eq!(cases[3].data_type, DataType::U16);
    assert!(cases[3].u16_value.is_some());
    assert_eq!(cases[4].data_type, DataType::U32);
    assert!(cases[4].u32_value.is_some());
    assert_eq!(cases[5].data_type, DataType::U128);
    assert!(cases[5].u128_value.is_some());
}

#[test]
fn defaults_are_well_formed() {
    let v = DataValue::default();
    assert_eq!(v.data_type, DataType::String);
    assert_eq!(v.string_value, Some(Vec::new()));
    assert_eq!(populated_fields(&v), 1);
    assert_eq!(DataType::default(), DataType::String);
    assert_eq!(Fact::default(), Fact::String(Vec::new()));
}

#[test]
fn data_value_round_trips() {
    let cases = vec![
        DataValue::from_bool(false),
        DataValue::from_string(b"catalog".to_vec()),
        DataValue::from_u8(255),
        DataValue::from_u16(65535),
        DataValue::from_u32(4294967295),
        DataValue::from_u128(340282366920938463463374607431768211455),
        DataValue::default(),
    ];
    for v in cases {
        let bytes = encode(&v);
        let (back, end) = decode_data_value(&bytes, 0).expect("a value must read back");
        assert_eq!(back, v);
        assert_eq!(end, bytes.len());
    }
}

#[test]
fn data_value_decode_rejects_bad_tag() {
    let mut bytes = encode(&DataValue::from_u8(1));
    bytes[0] = 6;
    assert!(decode_data_value(&bytes, 0).is_none());
}

#[test]
fn data_value_wire_layout() {
    let v = DataValue::from_u16(258);
    let bytes = encode(&v);
    assert_eq!(bytes, vec![3u8, 0, 0, 0, 1, 2, 1, 0, 0]);
}
