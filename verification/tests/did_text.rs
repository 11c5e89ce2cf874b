//! Constructing identifiers from raw bytes and from their textual form.

use extrinsics::identity::did::{Did, DidParseError};
use extrinsics::system::Hash256;

#[test]
fn did_new_recovers_bytes() {
    let mut id = [0u8; 32];
    for (i, b) in id.iter_mut().enumerate() {
        *b = (31 - i) as u8;
    }
    let d = Did::new(id);
    assert_eq!(d.bytes(), id);
    assert_eq!(d.id, id);
}

#[test]
fn did_from_hash_recovers_bytes() {
    let h = Hash256::new([0xabu8; 32]);
    let d = Did::from_hash(&h);
    assert_eq!(d.id, [0xabu8; 32]);
}

#[test]
fn did_from_text_parses_lower_hex() {
    let text = "did:bws:000102030405060708090a0b0c0d0e0f101112131415161718191a1b1c1d1e1f";
    let d = Did::from_text(text).expect("a well-formed identifier must parse");
    let mut expected = [0u8; 32];
    for (i, b) in expected.iter_mut().enumerate() {
        *b = i as u8;
    }
    assert_eq!(d.id, expected);
}

#[test]
fn did_from_text_parses_mixed_case_hex() {
    let text = "did:bws:FFff0000FFff0000ffFF0000ffff0000ffff0000ffff0000ffff0000ffff00AB";
    let d = Did::from_text(text).expect("mixed-case digits are digits");
    assert_eq!(d.id[0], 0xff);
    assert_eq!(d.id[2], 0x00);
    assert_eq!(d.id[31], 0xab);
}

#[test]
fn did_from_text_rejects_bad_prefix() {
    assert_eq!(
        Did::from_text("dud:bws:000102030405060708090a0b0c0d0e0f101112131415161718191a1b1c1d1e1f"),
        Err(DidParseError::BadPrefix)
    );
    assert_eq!(Did::from_text(""), Err(DidParseError::BadPrefix));
    assert_eq!(Did::from_text("did:bw"), Err(DidParseError::BadPrefix));
}

#[test]
fn did_from_text_rejects_wrong_length() {
    // fewer than 32 decodable bytes after the prefix
    assert_eq!(Did::from_text("did:bws:00010203"), Err(DidParseError::WrongLength));
    assert_eq!(Did::from_text("did:bws:"), Err(DidParseError::WrongLength));
    // one character short of 64
    assert_eq!(
        Did::from_text("did:bws:000102030405060708090a0b0c0d0e0f101112131415161718191a1b1c1d1e1"),
        Err(DidParseError::WrongLength)
    );
    // one too many
    assert_eq!(
        Did::from_text(
            "did:bws:000102030405060708090a0b0c0d0e0f101112131415161718191a1b1c1d1e1f0"
        ),
        Err(DidParseError::WrongLength)
    );
}

#[test]
fn did_from_text_rejects_stray_characters() {
    assert_eq!(
        Did::from_text("did:bws:000102030405060708090a0b0c0d0e0f101112131415161718191a1b1c1d1e1g"),
        Err(DidParseError::BadHex)
    );
    assert_eq!(
        Did::from_text("did:bws:zz0102030405060708090a0b0c0d0e0f101112131415161718191a1b1c1d1e1f"),
        Err(DidParseError::BadHex)
    );
}
