//! Claims and attestations encode their fields in declared order.

use extrinsics::codec::encode;
use extrinsics::identity::attestation::Attestation;
use extrinsics::identity::claim::{decode_claim, decode_statement_seq, Claim, Statement};
use extrinsics::identity::did::Did;
use extrinsics::identity::fact::Fact;

#[test]
fn statement_sequence_round_trip() {
    let ss = vec![
        Statement { name: b"age".to_vec(), fact: Fact::U8(30), for_verifier: false },
        Statement { name: b"name".to_vec(), fact: Fact::String(b"b".to_vec()), for_verifier: true },
    ];
    let bytes = encode(&ss);
    let (back, end) = decode_statement_seq(&bytes, 0).expect("statements must read back");
    assert_eq!(back, ss);
    assert_eq!(end, bytes.len());

    let none: Vec<Statement> = Vec::new();
    let bytes2 = encode(&none);
    assert_eq!(bytes2, vec![0u8]);
    let (back2, _) = decode_statement_seq(&bytes2, 0).expect("an empty sequence must read back");
    assert_eq!(back2, none);
}

#[test]
fn statement_sequence_decode_rejects_short_input() {
    let ss = vec![Statement { name: b"x".to_vec(), fact: Fact::Bool(false), for_verifier: false }];
    let mut bytes = encode(&ss);
    bytes.pop();
    assert!(decode_statement_seq(&bytes, 0).is_none());
}

#[test]
fn claim_round_trip() {
    let c: Claim<u64, u64> = Claim {
        id: 42,
        description: b"kyc".to_vec(),
        statements: vec![Statement {
            name: b"age".to_vec(),
            fact: Fact::U8(30),
            for_verifier: false,
        }],
        created_by: Did::new([7u8; 32]),
        attestation: Some(Attestation { attested_by: Did::new([8u8; 32]), valid_until: 1000 }),
    };
    let bytes = encode(&c);
    let (back, end) = decode_claim(&bytes, 0).expect("a claim must read back");
    assert_eq!(back, c);
    assert_eq!(end, bytes.len());
}

#[test]
fn claim_round_trip_without_attestation() {
    let c: Claim<u64, u64> = Claim {
        id: 0,
        description: Vec::new(),
        statements: Vec::new(),
        created_by: Did::new([0u8; 32]),
        attestation: None,
    };
    let bytes = encode(&c);
    let (back, end) = decode_claim(&bytes, 0).expect("a claim must read back");
    assert_eq!(back, c);
    assert_eq!(end, bytes.len());
}

#[test]
fn claim_without_attestation_layout() {
    let c: Claim<u64, u64> = Claim {
        id: 5,
        description: b"d".to_vec(),
        statements: Vec::new(),
        created_by: Did::new([8u8; 32]),
        attestation: None,
    };
    let bytes = encode(&c);
    let mut expected: Vec<u8> = Vec::new();
    expected.extend_from_slice(&5u64.to_le_bytes());
    expected.push(1 * 4);
    expected.push(b'd');
    expected.push(0); // no statements
    expected.extend_from_slice(&[8u8; 32]);
    expected.push(0); // no attestation
    assert_eq!(bytes, expected);
}

#[test]
fn claim_with_attestation_layout() {
    let s = Statement { name: b"a".to_vec(), fact: Fact::Bool(true), for_verifier: true };
    let c: Claim<u64, u64> = Claim {
        id: 1,
        description: Vec::new(),
        statements: vec![s],
        created_by: Did::new([1u8; 32]),
        attestation: Some(Attestation { attested_by: Did::new([2u8; 32]), valid_until: 99 }),
    };
    let bytes = encode(&c);
    let mut expected: Vec<u8> = Vec::new();
    expected.extend_from_slice(&1u64.to_le_bytes());
    expected.push(0); // empty description
    expected.push(1 * 4); // one statement
    expected.push(1 * 4); // a one-byte name
    expected.push(b'a');
    expected.push(0); // the fact: a boolean,
    expected.push(1); // true,
    expected.push(1); // for a verifier
    expected.extend_from_slice(&[1u8; 32]);
    expected.push(1); // an attestation follows
    expected.extend_from_slice(&[2u8; 32]);
    expected.extend_from_slice(&99u64.to_le_bytes());
    assert_eq!(bytes, expected);
}
