//! Typed requests and responses of the capability surface.
//!
//! Mutating kinds arrive as `ExecuteMsg`, read-only kinds as
//! `QueryMsg`; each response struct is the typed success payload of one
//! request kind.  Signature, key and hash fields are hex strings.

use vstd::prelude::*;

use crate::engine::Order;

verus! {

/// Instantiation carries no configuration.
#[derive(Clone, Debug, PartialEq)]
pub struct InstantiateMsg {}

/// The mutating request kinds.
#[derive(Clone, Debug, PartialEq)]
pub enum ExecuteMsg {
    TestDbWrite { key: Vec<u8>, value: Vec<u8> },
    TestDbRemove { key: Vec<u8> },
    TestDbScan { start: Option<Vec<u8>>, end: Option<Vec<u8>>, order: Order },
    TestDbNext { iterator_id: u64 },
    TestDebugExecute { payload: Vec<u8> },
}

/// The read-only request kinds.
#[derive(Clone, Debug, PartialEq)]
pub enum QueryMsg {
    TestDbRead { key: Vec<u8> },
    TestAddrHumanize { input: Vec<u8> },
    TestAddrCanonicalize { input: String },
    TestAddrValidate { input: String },
    TestSecp256k1Verify { hash: String, signature: String, public_key: String },
    TestSecp256k1RecoverPubkey { hash: String, signature: String, recovery_id: u8 },
    TestEd25519Verify { message: String, signature: String, public_key: String },
    TestEd25519BatchVerify {
        messages: Vec<String>,
        signatures: Vec<String>,
        public_keys: Vec<String>,
    },
    TestDebugQuery { payload: Vec<u8> },
    TestQueryChain { request: Vec<u8> },
}

/// The value stored under the requested key.
#[derive(Clone, Debug, PartialEq)]
pub struct TestDbReadResponse {
    pub value: Vec<u8>,
}

/// The human form of the requested canonical address.
#[derive(Clone, Debug, PartialEq)]
pub struct TestAddrHumanizeResponse {
    pub address: String,
}

/// The canonical form of the requested human address.
#[derive(Clone, Debug, PartialEq)]
pub struct TestAddrCanonicalizeResponse {
    pub address: Vec<u8>,
}

/// The requested address, normalized.
#[derive(Clone, Debug, PartialEq)]
pub struct TestAddrValidateResponse {
    pub address: String,
}

/// Whether the secp256k1 signature matches.
#[derive(Clone, Copy, Debug, PartialEq, Eq, Structural)]
pub struct TestSecp256k1VerifyResponse {
    pub verifies: bool,
}

/// The public key the secp256k1 signature recovers to.
#[derive(Clone, Debug, PartialEq)]
pub struct TestSecp256k1RecoverPubkeyResponse {
    pub public_key: Vec<u8>,
}

/// Whether the ed25519 signature matches.
#[derive(Clone, Copy, Debug, PartialEq, Eq, Structural)]
pub struct TestEd25519VerifyResponse {
    pub verifies: bool,
}

/// Whether the whole ed25519 batch verifies.
#[derive(Clone, Copy, Debug, PartialEq, Eq, Structural)]
pub struct TestEd25519BatchVerifyResponse {
    pub verifies: bool,
}

/// Acknowledgement of a forwarded diagnostic payload.
#[derive(Clone, Copy, Debug, PartialEq, Eq, Structural)]
pub struct TestDebugQueryResponse {}

/// The relay's response to a forwarded chain query, verbatim.
#[derive(Clone, Debug, PartialEq)]
pub struct TestQueryChainResponse {
    pub response: Vec<u8>,
}

} // verus!
