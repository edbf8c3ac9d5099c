//! The response envelope: one success/failure shape shared by every
//! request kind, so a caller never needs kind-specific parsing to know
//! whether a call failed.  An outcome carries a typed payload or a
//! typed fault, never both.

use vstd::prelude::*;

use crate::msg::{TestAddrCanonicalizeResponse, TestAddrHumanizeResponse, TestAddrValidateResponse,
    TestDbReadResponse, TestDebugQueryResponse, TestEd25519BatchVerifyResponse,
    TestEd25519VerifyResponse, TestQueryChainResponse, TestSecp256k1RecoverPubkeyResponse,
    TestSecp256k1VerifyResponse};

verus! {

/// The typed failures a capability invocation can report.
#[derive(Clone, Copy, Debug, PartialEq, Eq, Structural)]
pub enum Fault {
    /// A request field was malformed; no capability was touched.
    DecodingError,
    /// A read of an absent key (distinct from an empty value).
    NotFound,
    /// The address codec rejected its input.
    InvalidAddress,
    /// Well-sized signature material the verifier still rejected.
    VerificationFailed,
    /// The signature/recovery-id pair recovers no public key.
    RecoveryFailed,
    /// An iterator handle that names no live scan.
    InvalidHandle,
    /// A mutation attempted by a caller lacking the required identity.
    Unauthorized,
}

/// The typed success payload of one capability invocation.
#[derive(Clone, Debug, PartialEq)]
pub enum Payload {
    /// Acknowledgement with no data (write, remove, debug probe).
    Empty,
    /// The handle a scan produced.
    IteratorId { id: u64 },
    /// The entry under a live cursor.
    Entry { key: Vec<u8>, value: Vec<u8> },
    /// End of iteration: the scan is exhausted (not an error).
    Finished,
    DbRead(TestDbReadResponse),
    AddrHumanize(TestAddrHumanizeResponse),
    AddrCanonicalize(TestAddrCanonicalizeResponse),
    AddrValidate(TestAddrValidateResponse),
    Secp256k1Verify(TestSecp256k1VerifyResponse),
    Secp256k1RecoverPubkey(TestSecp256k1RecoverPubkeyResponse),
    Ed25519Verify(TestEd25519VerifyResponse),
    Ed25519BatchVerify(TestEd25519BatchVerifyResponse),
    DebugQuery(TestDebugQueryResponse),
    QueryChain(TestQueryChainResponse),
}

/// One capability outcome: a typed success payload or a typed fault.
#[derive(Clone, Debug, PartialEq)]
pub enum Outcome {
    Success(Payload),
    Failure(Fault),
}

} // verus!
