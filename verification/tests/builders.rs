//! The call builders name the right module and function, and their payloads
//! encode fields in declared order.

use extrinsics::asset_registry;
use extrinsics::identity;
use extrinsics::identity::claim::Statement;
use extrinsics::identity::did::Did;
use extrinsics::identity::fact::Fact;
use extrinsics::runtimes::DefaultNodeRuntime;
use extrinsics::system::{AccountId32, Hash256};

#[test]
fn asset_create_catalog_has_empty_payload() {
    let c = asset_registry::create_catalog();
    assert_eq!(c.module, "AssetRegistry");
    assert_eq!(c.function, "create_catalog");
    assert_eq!(c.encode_args().len(), 0);
}

#[test]
fn add_kycprovider_names() {
    let c = asset_registry::add_kycprovider::<DefaultNodeRuntime>(
        Hash256::new([7u8; 32]),
        AccountId32::new([9u8; 32]),
    );
    assert_eq!(c.module, "AssetRegistry");
    assert_eq!(c.function, "add_kycprovider");
    let bytes = c.encode_args();
    assert_eq!(bytes[..32], [7u8; 32]);
    assert_eq!(bytes[32..], [9u8; 32]);
}

#[test]
fn create_asset_names() {
    let c = asset_registry::create_asset::<DefaultNodeRuntime>(
        Hash256::new([1u8; 32]),
        AccountId32::new([2u8; 32]),
    );
    assert_eq!(c.module, "AssetRegistry");
    assert_eq!(c.function, "create_asset");
}

#[test]
fn create_asset_property_payload_order() {
    let value = asset_registry::DataValue::from_u8(5);
    let c = asset_registry::create_asset_property::<DefaultNodeRuntime>(
        Hash256::new([0u8; 32]),
        1,
        2,
        b"is".to_vec(),
        asset_registry::DataType::U8,
        value,
    );
    assert_eq!(c.module, "AssetRegistry");
    assert_eq!(c.function, "create_asset_property");
    let bytes = c.encode_args();
    let mut expected: Vec<u8> = Vec::new();
    expected.extend_from_slice(&[0u8; 32]);
    expected.extend_from_slice(&1i64.to_le_bytes());
    expected.extend_from_slice(&2i64.to_le_bytes());
    expected.push(2 * 4);
    expected.extend_from_slice(b"is");
    expected.push(2); // the data type's discriminant
    // the value: tag, then each optional field in order
    expected.push(2);
    expected.push(0);
    expected.push(0);
    expected.push(1);
    expected.push(5);
    expected.push(0);
    expected.push(0);
    expected.push(0);
    assert_eq!(bytes, expected);
}

#[test]
fn verify_asset_property_names() {
    let c = asset_registry::verify_asset_property::<DefaultNodeRuntime>(
        Hash256::new([0u8; 32]),
        Hash256::new([1u8; 32]),
        10,
        20,
    );
    assert_eq!(c.module, "AssetRegistry");
    assert_eq!(c.function, "verify_asset_property");
}

#[test]
fn remove_verification_names() {
    let c = asset_registry::remove_verification::<DefaultNodeRuntime>(
        Hash256::new([0u8; 32]),
        Hash256::new([1u8; 32]),
    );
    assert_eq!(c.module, "AssetRegistry");
    assert_eq!(c.function, "remove_verification");
}

#[test]
fn asset_owner_addax_dispatches_through_remove_verification() {
    let c = asset_registry::asset_owner_addax::<DefaultNodeRuntime>(
        Hash256::new([0u8; 32]),
        AccountId32::new([1u8; 32]),
    );
    assert_eq!(c.module, "AssetRegistry");
    assert_eq!(c.function, "remove_verification");
}

#[test]
fn attest_claim_payload_order() {
    let issuer = Did::new([1u8; 32]);
    let target = Did::new([2u8; 32]);
    let statements = vec![Statement {
        name: b"age".to_vec(),
        fact: Fact::U8(30),
        for_verifier: false,
    }];
    let c = identity::attest_claim(issuer, target, 42, statements, 1000);
    assert_eq!(c.module, "Identity");
    assert_eq!(c.function, "attest_claim");
    let bytes = c.encode_args();
    let mut expected: Vec<u8> = Vec::new();
    expected.extend_from_slice(&[1u8; 32]); // the identifiers first
    expected.extend_from_slice(&[2u8; 32]);
    expected.extend_from_slice(&42u64.to_le_bytes()); // then the claim's index
    expected.push(1 * 4); // one statement
    expected.push(3 * 4); // a three-byte name
    expected.extend_from_slice(b"age");
    expected.push(2); // the fact: an eight-bit integer,
    expected.push(30); // thirty,
    expected.push(0); // not for a verifier
    expected.extend_from_slice(&1000u64.to_le_bytes()); // the expiry last
    assert_eq!(bytes, expected);
}

#[test]
fn identity_builder_names() {
    let d = Did::new([3u8; 32]);
    assert_eq!(identity::register_did(None).function, "register_did");
    assert_eq!(identity::update_did(d, None, None).function, "update_did");
    assert_eq!(identity::replace_did(d, None).function, "replace_did");
    assert_eq!(
        identity::authorize_claim_consumers(d, Vec::new()).function,
        "authorize_claim_consumers"
    );
    assert_eq!(identity::revoke_claim_consumers(d, Vec::new()).function, "revoke_claim_consumers");
    assert_eq!(
        identity::authorize_claim_issuers(d, Vec::new()).function,
        "authorize_claim_issuers"
    );
    assert_eq!(identity::revoke_claim_issuers(d, Vec::new()).function, "revoke_claim_issuers");
    assert_eq!(identity::make_claim(d, d, Vec::new(), Vec::new()).function, "make_claim");
    assert_eq!(identity::revoke_attestation(d, d, 0).function, "revoke_attestation");
    assert_eq!(identity::create_catalog(d).function, "create_catalog");
    assert_eq!(identity::remove_catalog(d, 1).function, "remove_catalog");
    assert_eq!(identity::add_dids_to_catalog(d, 1, Vec::new()).function, "add_dids_to_catalog");
    assert_eq!(
        identity::remove_dids_from_catalog(d, 1, Vec::new()).function,
        "remove_dids_from_catalog"
    );
    assert_eq!(identity::register_did(None).module, "Identity");
}

#[test]
fn identity_generic_builder_names() {
    let d = Did::new([4u8; 32]);
    let a = AccountId32::new([5u8; 32]);
    let c = identity::register_did_for::<DefaultNodeRuntime>(a, None);
    assert_eq!(c.module, "Identity");
    assert_eq!(c.function, "register_did_for");
    let c2 = identity::update_did_controllers::<DefaultNodeRuntime>(d, Some(vec![a]), None);
    assert_eq!(c2.function, "update_did_controllers");
}

#[test]
fn make_claim_payload_order() {
    let consumer = Did::new([1u8; 32]);
    let target = Did::new([2u8; 32]);
    let c = identity::make_claim(consumer, target, b"kyc".to_vec(), Vec::new());
    let bytes = c.encode_args();
    let mut expected: Vec<u8> = Vec::new();
    expected.extend_from_slice(&[1u8; 32]);
    expected.extend_from_slice(&[2u8; 32]);
    expected.push(3 * 4);
    expected.extend_from_slice(b"kyc");
    expected.push(0); // no statements
    assert_eq!(bytes, expected);
}

#[test]
fn catalog_generations_are_not_interchangeable() {
    // The two schema generations build catalog creation differently: one
    // encodes nothing, the other the owning identifier. Each generation's
    // reader refuses the other's payload.
    let old_call = asset_registry::create_catalog();
    let new_call = identity::create_catalog(Did::new([6u8; 32]));
    let old_bytes = old_call.encode_args();
    let new_bytes = new_call.encode_args();
    assert_eq!(old_bytes.len(), 0);
    assert_eq!(new_bytes.len(), 32);
    assert!(asset_registry::decode_empty_args(&new_bytes).is_none());
    assert!(identity::decode_create_catalog_args(&old_bytes).is_none());
    // and each accepts its own
    assert!(asset_registry::decode_empty_args(&old_bytes).is_some());
    let back = identity::decode_create_catalog_args(&new_bytes).unwrap();
    assert_eq!(back.owner_did, Did::new([6u8; 32]));
}

#[test]
fn remove_catalog_payload() {
    let c = identity::remove_catalog(Did::new([9u8; 32]), 258);
    let bytes = c.encode_args();
    let mut expected: Vec<u8> = Vec::new();
    expected.extend_from_slice(&[9u8; 32]);
    expected.extend_from_slice(&258u32.to_le_bytes());
    assert_eq!(bytes, expected);
}

#[test]
fn add_dids_to_catalog_payload() {
    let owner = Did::new([1u8; 32]);
    let listed = Did::new([2u8; 32]);
    let c = identity::add_dids_to_catalog(owner, 7, vec![(listed, b"me".to_vec())]);
    let bytes = c.encode_args();
    let mut expected: Vec<u8> = Vec::new();
    expected.extend_from_slice(&[1u8; 32]);
    expected.extend_from_slice(&7u32.to_le_bytes());
    expected.push(1 * 4); // one pair
    expected.extend_from_slice(&[2u8; 32]);
    expected.push(2 * 4); // a two-byte name
    expected.extend_from_slice(b"me");
    assert_eq!(bytes, expected);
}
