//! Signature verification capabilities.
//!
//! The actual curve arithmetic is the host's; this module states what
//! each verifier returns.  A well-formed signature that merely fails to
//! match is a successful call with a negative boolean result, never an
//! error; ill-sized or otherwise malformed material is an error.

use vstd::prelude::*;

use cosmwasm_crypto::CryptoError;

verus! {

/// Why a verifier rejected its input outright.
#[derive(Clone, Copy, Debug, PartialEq, Eq, Structural)]
pub enum CryptoFault {
    /// The hash is not the size the curve expects.
    BadHash,
    /// The signature is not the size the curve expects.
    BadSignature,
    /// The public key has the wrong size or serialization tag.
    BadPubkey,
    /// The recovery parameter is not 0 or 1.
    BadRecoveryParam,
    /// The batch's message, signature and key counts do not line up.
    BatchMismatch,
    /// Well-sized material the curve library still could not parse,
    /// or a recovery that found no key.
    Rejected,
}

/// What a boolean verification call returns.
pub type VerifyResult = Result<bool, CryptoFault>;

/// What a key recovery call returns.
pub type RecoverResult = Result<Vec<u8>, CryptoFault>;

/// What verifying a secp256k1 signature over a message hash under a
/// key yields, on well-sized material: the boolean match result, or
/// nothing when the signature scalars or the key point do not parse.
/// Both outcomes depend on the argument bytes alone.
pub uninterp spec fn secp256k1_checked(hash: Seq<u8>, sig: Seq<u8>, pk: Seq<u8>) -> Option<bool>;

/// The public key a secp256k1 signature recovers to, if any.
pub uninterp spec fn secp256k1_recovered(hash: Seq<u8>, sig: Seq<u8>, param: u8) -> Option<
    Seq<u8>,
>;

/// Whether an ed25519 signature matches a message under a key.
pub uninterp spec fn ed25519_verifies(msg: Seq<u8>, sig: Seq<u8>, pk: Seq<u8>) -> bool;

/// A serialized secp256k1 public key: compressed or uncompressed.
pub open spec fn secp_pubkey_shape(pk: Seq<u8>) -> bool {
    (pk.len() == 33 && (pk[0] == 2 || pk[0] == 3)) || (pk.len() == 65 && pk[0] == 4)
}

/// The views of a vector of byte vectors.
pub open spec fn vec_views(s: Seq<Vec<u8>>) -> Seq<Seq<u8>> {
    s.map_values(|x: Vec<u8>| x@)
}

/// Every element of `v` has length `n`.
pub open spec fn all_len(v: Seq<Seq<u8>>, n: int) -> bool {
    forall|i: int| 0 <= i < v.len() ==> (#[trigger] v[i]).len() == n
}

/// The batch shapes the verifier accepts: equal counts, one message
/// for many signature/key pairs, or one key for many message/signature
/// pairs.
pub open spec fn batch_counts_ok(m: int, s: int, p: int) -> bool {
    (m == s && s == p) || (m == 1 && s == p) || (p == 1 && m == s)
}

/// Relies on cosmwasm_crypto::secp256k1_verify: it rejects a hash that
/// is not 32 bytes, a signature that is not 64 bytes and a key that is
/// not SEC 1 shaped; on well-sized material it deterministically
/// returns the boolean match result, or rejects exactly when the
/// signature scalars or the key point do not parse.
#[verifier::external_body]
pub fn secp256k1_verify(hash: &Vec<u8>, sig: &Vec<u8>, pk: &Vec<u8>) -> (r: VerifyResult)
    ensures
        hash@.len() != 32 ==> r is Err && r->Err_0 == CryptoFault::BadHash,
        hash@.len() == 32 && sig@.len() != 64 ==> r is Err && r->Err_0 == CryptoFault::BadSignature,
        hash@.len() == 32 && sig@.len() == 64 && !secp_pubkey_shape(pk@) ==> r is Err && r->Err_0 == CryptoFault::BadPubkey,
        r is Ok ==> hash@.len() == 32 && sig@.len() == 64 && secp_pubkey_shape(pk@) && Some(r->Ok_0) == secp256k1_checked(hash@, sig@, pk@),
        hash@.len() == 32 && sig@.len() == 64 && secp_pubkey_shape(pk@) && secp256k1_checked(hash@, sig@, pk@) is Some ==> r is Ok,
        hash@.len() == 32 && sig@.len() == 64 && secp_pubkey_shape(pk@) && secp256k1_checked(hash@, sig@, pk@) is None ==> r is Err && r->Err_0 == CryptoFault::Rejected,
{
    match cosmwasm_crypto::secp256k1_verify(hash.as_slice(), sig.as_slice(), pk.as_slice()) {
        Ok(b) => Ok(b),
        Err(e) => Err(match e {
            CryptoError::BatchErr { .. } => CryptoFault::BatchMismatch,
            CryptoError::GenericErr { .. } => CryptoFault::Rejected,
            CryptoError::InvalidHashFormat { .. } => CryptoFault::BadHash,
            CryptoError::InvalidPubkeyFormat { .. } => CryptoFault::BadPubkey,
            CryptoError::InvalidSignatureFormat { .. } => CryptoFault::BadSignature,
            CryptoError::InvalidRecoveryParam { .. } => CryptoFault::BadRecoveryParam,
        }),
    }
}

/// Relies on cosmwasm_crypto::secp256k1_recover_pubkey: it rejects
/// ill-sized material and recovery parameters other than 0 and 1, and
/// otherwise deterministically recovers the uncompressed 65-byte key
/// or finds none.
#[verifier::external_body]
pub fn secp256k1_recover_pubkey(hash: &Vec<u8>, sig: &Vec<u8>, param: u8) -> (r: RecoverResult)
    ensures
        hash@.len() != 32 ==> r is Err && r->Err_0 == CryptoFault::BadHash,
        hash@.len() == 32 && sig@.len() != 64 ==> r is Err && r->Err_0 == CryptoFault::BadSignature,
        hash@.len() == 32 && sig@.len() == 64 && param > 1 ==> r is Err && r->Err_0 == CryptoFault::BadRecoveryParam,
        hash@.len() == 32 && sig@.len() == 64 && param <= 1 && secp256k1_recovered(hash@, sig@, param) is Some ==> r is Ok && Some(r->Ok_0@) == secp256k1_recovered(hash@, sig@, param) && r->Ok_0@.len() == 65,
        hash@.len() == 32 && sig@.len() == 64 && param <= 1 && secp256k1_recovered(hash@, sig@, param) is None ==> r is Err && r->Err_0 == CryptoFault::Rejected,
{
    match cosmwasm_crypto::secp256k1_recover_pubkey(hash.as_slice(), sig.as_slice(), param) {
        Ok(v) => Ok(v),
        Err(e) => Err(match e {
            CryptoError::BatchErr { .. } => CryptoFault::BatchMismatch,
            CryptoError::GenericErr { .. } => CryptoFault::Rejected,
            CryptoError::InvalidHashFormat { .. } => CryptoFault::BadHash,
            CryptoError::InvalidPubkeyFormat { .. } => CryptoFault::BadPubkey,
            CryptoError::InvalidSignatureFormat { .. } => CryptoFault::BadSignature,
            CryptoError::InvalidRecoveryParam { .. } => CryptoFault::BadRecoveryParam,
        }),
    }
}

/// Relies on cosmwasm_crypto::ed25519_verify: it rejects a signature
/// that is not 64 bytes and a key that is not 32 bytes, and otherwise
/// always returns the deterministic boolean verification result.
#[verifier::external_body]
pub fn ed25519_verify(msg: &Vec<u8>, sig: &Vec<u8>, pk: &Vec<u8>) -> (r: VerifyResult)
    ensures
        sig@.len() != 64 ==> r is Err && r->Err_0 == CryptoFault::BadSignature,
        sig@.len() == 64 && pk@.len() != 32 ==> r is Err && r->Err_0 == CryptoFault::BadPubkey,
        sig@.len() == 64 && pk@.len() == 32 ==> r is Ok && r->Ok_0 == ed25519_verifies(msg@, sig@, pk@),
{
    match cosmwasm_crypto::ed25519_verify(msg.as_slice(), sig.as_slice(), pk.as_slice()) {
        Ok(b) => Ok(b),
        Err(e) => Err(match e {
            CryptoError::BatchErr { .. } => CryptoFault::BatchMismatch,
            CryptoError::GenericErr { .. } => CryptoFault::Rejected,
            CryptoError::InvalidHashFormat { .. } => CryptoFault::BadHash,
            CryptoError::InvalidPubkeyFormat { .. } => CryptoFault::BadPubkey,
            CryptoError::InvalidSignatureFormat { .. } => CryptoFault::BadSignature,
            CryptoError::InvalidRecoveryParam { .. } => CryptoFault::BadRecoveryParam,
        }),
    }
}

/// Relies on cosmwasm_crypto::ed25519_batch_verify: it rejects counts
/// outside the three accepted shapes, succeeds on well-sized material,
/// and verifies the empty batch.  The boolean is drawn from a
/// randomized batch equation, so no more is stated of it.
#[verifier::external_body]
pub fn ed25519_batch_verify(msgs: &Vec<Vec<u8>>, sigs: &Vec<Vec<u8>>, pks: &Vec<Vec<u8>>) -> (r: VerifyResult)
    ensures
        !batch_counts_ok(msgs@.len() as int, sigs@.len() as int, pks@.len() as int) ==> r is Err && r->Err_0 == CryptoFault::BatchMismatch,
        batch_counts_ok(msgs@.len() as int, sigs@.len() as int, pks@.len() as int) && all_len(vec_views(sigs@), 64) && all_len(vec_views(pks@), 32) ==> r is Ok,
        msgs@.len() == 0 && sigs@.len() == 0 && pks@.len() == 0 ==> r is Ok && r->Ok_0 == true,
{
    let ms: Vec<&[u8]> = msgs.iter().map(|m| m.as_slice()).collect();
    let ss: Vec<&[u8]> = sigs.iter().map(|s| s.as_slice()).collect();
    let ps: Vec<&[u8]> = pks.iter().map(|p| p.as_slice()).collect();
    match cosmwasm_crypto::ed25519_batch_verify(&ms, &ss, &ps) {
        Ok(b) => Ok(b),
        Err(CryptoError::BatchErr { .. }) => Err(CryptoFault::BatchMismatch),
        Err(CryptoError::InvalidPubkeyFormat { .. }) => Err(CryptoFault::BadPubkey),
        Err(CryptoError::InvalidSignatureFormat { .. }) => Err(CryptoFault::BadSignature),
        Err(_) => Err(CryptoFault::Rejected),
    }
}

} // verus!
