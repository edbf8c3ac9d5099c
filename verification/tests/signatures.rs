use cw_vm_test::dispatch::{instantiate, query};
use cw_vm_test::envelope::{Fault, Outcome, Payload};
use cw_vm_test::msg::{InstantiateMsg, QueryMsg};

// TEST 1 of RFC 8032, section 7.1: empty message.
const ED25519_PUBLIC_KEY: &str =
    "d75a980182b10ab7d54bfed3c964073a0ee172f3daa62325af021a68f707511a";
const ED25519_SIGNATURE: &str = "e5564300c360ac729086e2cc806e828a84877f1eb8e5d974d873e065224901555fb8821590a33bacc61e39701cf9b46bd25bf5f0595bbe24655141438e7a100b";

// The curve's generator point, compressed: a well-formed key.
const SECP256K1_GENERATOR: &str =
    "0279be667ef9dcbbac55a06295ce870b07029bfcdb2dce28d959f2815b16f81798";
// r = 1, s = 1: well-formed scalars that match nothing.
const SECP256K1_UNIT_SIG: &str =
    "00000000000000000000000000000000000000000000000000000000000000010000000000000000000000000000000000000000000000000000000000000001";
const HASH_32: &str = "1111111111111111111111111111111111111111111111111111111111111111";

fn ed25519_verify(message: &str, signature: &str, public_key: &str) -> Outcome {
    let mut h = instantiate(InstantiateMsg {});
    query(
        &mut h,
        QueryMsg::TestEd25519Verify {
            message: message.to_string(),
            signature: signature.to_string(),
            public_key: public_key.to_string(),
        },
    )
}

#[test]
fn ed25519_matching_signature_verifies() {
    match ed25519_verify("", ED25519_SIGNATURE, ED25519_PUBLIC_KEY) {
        Outcome::Success(Payload::Ed25519Verify(resp)) => assert!(resp.verifies),
        other => panic!("unexpected outcome: {:?}", other),
    }
}

#[test]
fn ed25519_non_matching_signature_is_success_with_false() {
    // flip the message: the signature is well-formed but does not match
    match ed25519_verify("aa", ED25519_SIGNATURE, ED25519_PUBLIC_KEY) {
        Outcome::Success(Payload::Ed25519Verify(resp)) => assert!(!resp.verifies),
        other => panic!("unexpected outcome: {:?}", other),
    }
}

#[test]
fn ed25519_wrong_length_signature_is_decoding_error() {
    let short = &ED25519_SIGNATURE[..126];
    assert_eq!(
        ed25519_verify("", short, ED25519_PUBLIC_KEY),
        Outcome::Failure(Fault::DecodingError)
    );
}

#[test]
fn ed25519_non_hex_field_is_decoding_error() {
    assert_eq!(
        ed25519_verify("zz", ED25519_SIGNATURE, ED25519_PUBLIC_KEY),
        Outcome::Failure(Fault::DecodingError)
    );
}

#[test]
fn secp256k1_well_formed_non_matching_signature_is_false() {
    let mut h = instantiate(InstantiateMsg {});
    let out = query(
        &mut h,
        QueryMsg::TestSecp256k1Verify {
            hash: HASH_32.to_string(),
            signature: SECP256K1_UNIT_SIG.to_string(),
            public_key: SECP256K1_GENERATOR.to_string(),
        },
    );
    match out {
        Outcome::Success(Payload::Secp256k1Verify(resp)) => assert!(!resp.verifies),
        other => panic!("unexpected outcome: {:?}", other),
    }
}

#[test]
fn secp256k1_wrong_length_hash_is_decoding_error() {
    let mut h = instantiate(InstantiateMsg {});
    let out = query(
        &mut h,
        QueryMsg::TestSecp256k1Verify {
            hash: "11".to_string(),
            signature: SECP256K1_UNIT_SIG.to_string(),
            public_key: SECP256K1_GENERATOR.to_string(),
        },
    );
    assert_eq!(out, Outcome::Failure(Fault::DecodingError));
}

#[test]
fn secp256k1_recover_rejects_bad_recovery_id() {
    let mut h = instantiate(InstantiateMsg {});
    let out = query(
        &mut h,
        QueryMsg::TestSecp256k1RecoverPubkey {
            hash: HASH_32.to_string(),
            signature: SECP256K1_UNIT_SIG.to_string(),
            recovery_id: 2,
        },
    );
    assert_eq!(out, Outcome::Failure(Fault::DecodingError));
}

#[test]
fn secp256k1_recover_yields_key_or_recovery_failure() {
    let mut h = instantiate(InstantiateMsg {});
    let out = query(
        &mut h,
        QueryMsg::TestSecp256k1RecoverPubkey {
            hash: HASH_32.to_string(),
            signature: SECP256K1_UNIT_SIG.to_string(),
            recovery_id: 0,
        },
    );
    match out {
        Outcome::Success(Payload::Secp256k1RecoverPubkey(resp)) => {
            assert_eq!(resp.public_key.len(), 65)
        }
        Outcome::Failure(Fault::RecoveryFailed) => {}
        other => panic!("unexpected outcome: {:?}", other),
    }
}

#[test]
fn ed25519_batch_of_valid_triples_verifies() {
    let mut h = instantiate(InstantiateMsg {});
    let out = query(
        &mut h,
        QueryMsg::TestEd25519BatchVerify {
            messages: vec!["".to_string()],
            signatures: vec![ED25519_SIGNATURE.to_string()],
            public_keys: vec![ED25519_PUBLIC_KEY.to_string()],
        },
    );
    match out {
        Outcome::Success(Payload::Ed25519BatchVerify(resp)) => assert!(resp.verifies),
        other => panic!("unexpected outcome: {:?}", other),
    }
}

#[test]
fn ed25519_empty_batch_verifies() {
    let mut h = instantiate(InstantiateMsg {});
    let out = query(
        &mut h,
        QueryMsg::TestEd25519BatchVerify {
            messages: vec![],
            signatures: vec![],
            public_keys: vec![],
        },
    );
    match out {
        Outcome::Success(Payload::Ed25519BatchVerify(resp)) => assert!(resp.verifies),
        other => panic!("unexpected outcome: {:?}", other),
    }
}

#[test]
fn ed25519_batch_count_mismatch_is_decoding_error() {
    let mut h = instantiate(InstantiateMsg {});
    let out = query(
        &mut h,
        QueryMsg::TestEd25519BatchVerify {
            messages: vec!["".to_string(), "aa".to_string()],
            signatures: vec![ED25519_SIGNATURE.to_string()],
            public_keys: vec![ED25519_PUBLIC_KEY.to_string(), ED25519_PUBLIC_KEY.to_string()],
        },
    );
    assert_eq!(out, Outcome::Failure(Fault::DecodingError));
}
