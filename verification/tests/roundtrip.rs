//! Encode a value, read it back, and get the same value.

use extrinsics::codec::encode;
use extrinsics::identity::claim::{decode_statement, Statement};
use extrinsics::identity::did::{decode_did, Did};
use extrinsics::identity::did_property::{decode_did_property, DidProperty};
use extrinsics::identity::fact::{decode_fact, Fact};

fn fact_round_trips(f: Fact) {
    let bytes = encode(&f);
    let (back, end) = decode_fact(&bytes, 0).expect("a fact must read back");
    assert_eq!(back, f);
    assert_eq!(end, bytes.len());
}

#[test]
fn fact_bool_round_trip() {
    fact_round_trips(Fact::Bool(true));
    fact_round_trips(Fact::Bool(false));
}

#[test]
fn fact_string_round_trip() {
    fact_round_trips(Fact::String(b"hello world".to_vec()));
    fact_round_trips(Fact::String(Vec::new()));
}

#[test]
fn fact_integer_round_trips() {
    fact_round_trips(Fact::U8(30));
    fact_round_trips(Fact::U8(0));
    fact_round_trips(Fact::U8(255));
    fact_round_trips(Fact::U16(65535));
    fact_round_trips(Fact::U32(4294967295));
    fact_round_trips(Fact::U128(340282366920938463463374607431768211455));
}

#[test]
fn fact_date_round_trip() {
    fact_round_trips(Fact::Date(21, 3, 4));
}

#[test]
fn fact_iso8601_round_trip() {
    fact_round_trips(Fact::Iso8601(21, 3, 4, 23, 59, 58, b"+02:00".to_vec()));
    fact_round_trips(Fact::Iso8601(0, 0, 0, 0, 0, 0, Vec::new()));
}

#[test]
fn fact_decode_rejects_unknown_tag() {
    let bytes = vec![9u8, 1, 2, 3];
    assert!(decode_fact(&bytes, 0).is_none());
}

#[test]
fn fact_decode_rejects_bad_boolean_byte() {
    let bytes = vec![0u8, 2];
    assert!(decode_fact(&bytes, 0).is_none());
}

#[test]
fn fact_decode_rejects_truncated_payload() {
    let mut bytes = encode(&Fact::U32(7));
    bytes.pop();
    assert!(decode_fact(&bytes, 0).is_none());
}

#[test]
fn did_round_trip() {
    let mut id = [0u8; 32];
    for (i, b) in id.iter_mut().enumerate() {
        *b = i as u8;
    }
    let d = Did::new(id);
    let bytes = encode(&d);
    assert_eq!(bytes, id.to_vec());
    let (back, end) = decode_did(&bytes, 0).expect("an identifier must read back");
    assert_eq!(back, d);
    assert_eq!(end, 32);
}

#[test]
fn did_decode_rejects_short_input() {
    let bytes = vec![1u8; 31];
    assert!(decode_did(&bytes, 0).is_none());
}

#[test]
fn statement_round_trip() {
    let s = Statement { name: b"age".to_vec(), fact: Fact::U8(30), for_verifier: false };
    let bytes = encode(&s);
    let (back, end) = decode_statement(&bytes, 0).expect("a statement must read back");
    assert_eq!(back, s);
    assert_eq!(end, bytes.len());

    let s2 = Statement {
        name: Vec::new(),
        fact: Fact::String(b"x".to_vec()),
        for_verifier: true,
    };
    let bytes2 = encode(&s2);
    let (back2, _) = decode_statement(&bytes2, 0).expect("a statement must read back");
    assert_eq!(back2, s2);
}

#[test]
fn did_property_round_trip() {
    let p = DidProperty { created: -1, name: b"name".to_vec(), fact: Fact::Bool(true) };
    let bytes = encode(&p);
    let (back, end) = decode_did_property(&bytes, 0).expect("a property must read back");
    assert_eq!(back, p);
    assert_eq!(end, bytes.len());
}
