//! The crate's encoders agree byte for byte with the reference codec the
//! receiving ledger uses.

use extrinsics::codec::{encode, encode_compact};
use parity_scale_codec::{Compact, Encode};

#[test]
fn compat_unsigned_integers() {
    assert_eq!(encode(&0u8), 0u8.encode());
    assert_eq!(encode(&255u8), 255u8.encode());
    assert_eq!(encode(&4660u16), 4660u16.encode());
    assert_eq!(encode(&305419896u32), 305419896u32.encode());
    assert_eq!(encode(&1311768467463790320u64), 1311768467463790320u64.encode());
    assert_eq!(
        encode(&24197857200151252728969465429440056815u128),
        24197857200151252728969465429440056815u128.encode()
    );
}

#[test]
fn compat_signed_and_bool() {
    assert_eq!(encode(&0i64), 0i64.encode());
    assert_eq!(encode(&-1i64), (-1i64).encode());
    assert_eq!(encode(&-1311768467463790320i64), (-1311768467463790320i64).encode());
    assert_eq!(encode(&true), true.encode());
    assert_eq!(encode(&false), false.encode());
}

#[test]
fn compat_compact_length_prefix() {
    let cases: [u64; 12] = [
        0,
        1,
        63,
        64,
        16383,
        16384,
        1073741823,
        1073741824,
        4294967295,
        4294967296,
        1311768467463790320,
        18446744073709551615,
    ];
    for v in cases {
        let mut mine: Vec<u8> = Vec::new();
        encode_compact(v, &mut mine);
        assert_eq!(mine, Compact(v).encode(), "compact form of {v}");
    }
}

#[test]
fn compat_byte_sequences() {
    let v: Vec<u8> = (0u8..200).collect();
    assert_eq!(encode(&v), v.encode());
    let empty: Vec<u8> = Vec::new();
    assert_eq!(encode(&empty), empty.encode());
}

#[test]
fn compat_options_and_vectors() {
    assert_eq!(encode(&Some(7u32)), Some(7u32).encode());
    assert_eq!(encode(&None::<u32>), None::<u32>.encode());
    let v: Vec<u32> = vec![1, 2, 300000];
    assert_eq!(encode(&v), v.encode());
    let nested: Option<Vec<u8>> = Some(vec![9, 8, 7]);
    assert_eq!(encode(&nested), nested.encode());
}

#[test]
fn compat_pairs() {
    let p: (u8, u64) = (5, 1000);
    assert_eq!(encode(&p), p.encode());
}
